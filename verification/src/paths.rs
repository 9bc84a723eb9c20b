//! Relative paths of artifacts.

use crate::text;
use crate::text::{ends_with, same_text, split, starts_with};
use vstd::prelude::*;

verus! {

/// A path is not relative, or leads out of its directory.
#[derive(Debug, Clone, Copy, PartialEq, Eq, Structural)]
pub struct NotRelative;

/// Whether a piece of a path is a directory or file of its own.
pub open spec fn is_normal(piece: Seq<char>) -> bool {
    piece.len() > 0 && piece != "."@
}

/// The pieces of a path that name directories and files; empty ones and dots are left out.
pub open spec fn normal_pieces(pieces: Seq<Seq<char>>) -> Seq<Seq<char>>
    decreases pieces.len(),
{
    if pieces.len() == 0 {
        Seq::empty()
    } else {
        let rest = normal_pieces(pieces.drop_last());
        if is_normal(pieces.last()) {
            rest.push(pieces.last())
        } else {
            rest
        }
    }
}

/// Whether a path neither starts at a root or with a dot, nor has a parent component.
pub open spec fn stays_below(path: Seq<char>) -> bool {
    let pieces = text::pieces(path, '/');
    &&& !text::has_prefix(path, "/"@)
    &&& !(pieces.len() > 0 && pieces[0] == "."@)
    &&& !pieces.contains(".."@)
}

/// The components that a relative path adds to those of a root.
pub open spec fn appended(root: Seq<Seq<char>>, path: Seq<char>) -> Seq<Seq<char>> {
    root + normal_pieces(text::pieces(path, '/'))
}

/// Adds the components of a relative path to those of a root.
pub fn append_path(root: Vec<String>, relative: &str) -> (r: Result<Vec<String>, NotRelative>)
    ensures
        r is Ok <==> stays_below(relative@),
        r matches Ok(components) ==> text::texts(components@) == appended(
            text::texts(root@),
            relative@,
        ),
{
    let pieces = split(relative, '/');
    let ghost all = text::pieces(relative@, '/');
    if starts_with(relative, "/") {
        return Err(NotRelative);
    }
    if pieces.len() > 0 && same_text(pieces[0].as_str(), ".") {
        return Err(NotRelative);
    }
    let ghost start = text::texts(root@);
    let mut components = root;
    let mut i: usize = 0;
    assert(text::texts(components@) =~= start + normal_pieces(all.take(0)));
    while i < pieces.len()
        invariant
            i <= pieces.len(),
            all == text::pieces(relative@, '/'),
            all == text::texts(pieces@),
            all.len() == pieces.len(),
            forall|k: int| 0 <= k < i ==> #[trigger] all[k] != ".."@,
            text::texts(components@) == start + normal_pieces(all.take(i as int)),
        decreases pieces.len() - i,
    {
        let piece: &str = pieces[i].as_str();
        if same_text(piece, "..") {
            assert(all[i as int] == ".."@);
            assert(all.contains(".."@));
            return Err(NotRelative);
        }
        let ghost before = text::texts(components@);
        let normal = !piece.is_empty() && !same_text(piece, ".");
        proof {
            assert(all.take(i + 1).drop_last() =~= all.take(i as int));
            assert(all.take(i + 1).last() == all[i as int]);
        }
        if normal {
            components.push(pieces[i].clone());
            assert(text::texts(components@) =~= before.push(all[i as int]));
            assert(start + normal_pieces(all.take(i + 1)) =~= before.push(all[i as int]));
        }
        i += 1;
    }
    assert(all.take(all.len() as int) =~= all);
    assert(!all.contains(".."@));
    Ok(components)
}

/// An accepted path adds only components that stay below the root.
pub proof fn appended_paths_stay_below(root: Seq<Seq<char>>, path: Seq<char>, i: int)
    requires
        stays_below(path),
        root.len() <= i < appended(root, path).len(),
    ensures
        appended(root, path).take(root.len() as int) == root,
        appended(root, path)[i].len() > 0,
        appended(root, path)[i] != "."@,
        appended(root, path)[i] != ".."@,
{
    let pieces = text::pieces(path, '/');
    assert(appended(root, path).take(root.len() as int) =~= root);
    normal_pieces_are_normal(pieces, i - root.len());
}

proof fn normal_pieces_are_normal(pieces: Seq<Seq<char>>, i: int)
    requires
        0 <= i < normal_pieces(pieces).len(),
    ensures
        is_normal(normal_pieces(pieces)[i]),
        pieces.contains(normal_pieces(pieces)[i]),
    decreases pieces.len(),
{
    let rest = normal_pieces(pieces.drop_last());
    if i < rest.len() {
        normal_pieces_are_normal(pieces.drop_last(), i);
        let k = choose|k: int|
            0 <= k < pieces.drop_last().len() && pieces.drop_last()[k] == rest[i];
        assert(pieces[k] == rest[i]);
    } else {
        assert(pieces[pieces.len() - 1] == normal_pieces(pieces)[i]);
    }
}

/// The last component of a path.
pub open spec fn file_name(path: Seq<char>) -> Seq<char> {
    text::pieces(path, '/').last()
}

/// Whether the last component of a path is a name.
pub fn is_named(path: &str, name: &str) -> (r: bool)
    ensures
        r == (file_name(path@) == name@),
{
    let pieces = split(path, '/');
    let ghost all = text::pieces(path@, '/');
    assert(all == text::texts(pieces@));
    assert(all.len() > 0);
    same_text(pieces[pieces.len() - 1].as_str(), name)
}

/// Whether a name ends in a dot and an extension, after at least one character.
pub open spec fn has_extension(name: Seq<char>, extension: Seq<char>) -> bool {
    text::has_suffix(name, extension) && name.len() > extension.len()
}

/// Tells whether the last component of a path has an extension, given with its dot.
pub fn is_of_kind(path: &str, extension: &str) -> (r: bool)
    ensures
        r == has_extension(file_name(path@), extension@),
{
    let pieces = split(path, '/');
    let ghost all = text::pieces(path@, '/');
    assert(all == text::texts(pieces@));
    assert(all.len() > 0);
    let name: &str = pieces[pieces.len() - 1].as_str();
    proof {
        if text::has_suffix(name@, extension@) && name@.len() == extension@.len() {
            assert(name@ =~= extension@);
        }
    }
    ends_with(name, extension) && !same_text(name, extension)
}

/// A relative path does not begin at the root or in the directory itself, and never goes up.
pub proof fn relative_paths_never_go_up(path: Seq<char>, i: int)
    requires
        stays_below(path),
        0 <= i < text::pieces(path, '/').len(),
    ensures
        text::pieces(path, '/')[i] != ".."@,
        i == 0 ==> text::pieces(path, '/')[0] != "."@,
        !text::has_prefix(path, "/"@),
{
    assert(text::pieces(path, '/').contains(text::pieces(path, '/')[i]));
}

/// Appending a path keeps every piece that names something.
pub proof fn appended_paths_keep_their_pieces(
    root: Seq<Seq<char>>,
    path: Seq<char>,
    piece: Seq<char>,
)
    requires
        piece.len() > 0,
        piece != "."@,
        text::pieces(path, '/').contains(piece),
    ensures
        appended(root, path).contains(piece),
{
    let all = text::pieces(path, '/');
    named_pieces_stay(all, piece);
    let kept = normal_pieces(all);
    let i = choose|i: int| 0 <= i < kept.len() && kept[i] == piece;
    assert(appended(root, path)[root.len() + i] == piece);
}

proof fn named_pieces_stay(pieces: Seq<Seq<char>>, piece: Seq<char>)
    requires
        piece.len() > 0,
        piece != "."@,
        pieces.contains(piece),
    ensures
        normal_pieces(pieces).contains(piece),
    decreases pieces.len(),
{
    let rest = pieces.drop_last();
    let kept = normal_pieces(pieces);
    if pieces.last() == piece {
        assert(kept[kept.len() - 1] == piece);
    } else {
        let i = choose|i: int| 0 <= i < pieces.len() && pieces[i] == piece;
        assert(rest[i] == piece);
        named_pieces_stay(rest, piece);
        let before = normal_pieces(rest);
        let k = choose|k: int| 0 <= k < before.len() && before[k] == piece;
        assert(kept[k] == piece);
    }
}

} // verus!
