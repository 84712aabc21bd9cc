//! Where an archive entry may be written: the guard against stored paths that
//! would leave the destination directory.

use vstd::prelude::*;
use vstd::std_specs::iter::IteratorSpec;

verus! {

/// The character parts the components of a stored path. Both slashes count,
/// whichever the system at hand uses.
pub open spec fn is_separator(c: char) -> bool {
    c == '/' || c == '\\'
}

/// The pieces of `name` between its separators, empty ones included.
pub open spec fn pieces(name: Seq<char>) -> Seq<Seq<char>>
    decreases name.len(),
{
    if name.len() == 0 {
        seq![Seq::empty()]
    } else {
        let before = pieces(name.drop_last());
        if is_separator(name.last()) {
            before.push(Seq::empty())
        } else {
            before.drop_last().push(before.last().push(name.last()))
        }
    }
}

/// The piece names the directory itself.
pub open spec fn is_current(piece: Seq<char>) -> bool {
    piece =~= seq!['.']
}

/// The piece names the parent directory.
pub open spec fn is_parent(piece: Seq<char>) -> bool {
    piece =~= seq!['.', '.']
}

/// The piece starts like a drive of Windows: its second character is a colon.
pub open spec fn is_drive_like(piece: Seq<char>) -> bool {
    piece.len() >= 2 && piece[1] == ':'
}

/// The piece is the name of a file or directory and nothing else: it is not
/// empty, is neither `.` nor `..`, does not start like a drive, and holds no
/// separator and no NUL.
pub open spec fn is_plain(piece: Seq<char>) -> bool {
    &&& piece.len() > 0
    &&& !is_current(piece)
    &&& !is_parent(piece)
    &&& !is_drive_like(piece)
    &&& forall|i: int| 0 <= i < piece.len() ==> !is_separator(#[trigger] piece[i]) && piece[i] != '\0'
}

/// Where one gets from the directory reached by `path` by following `piece`.
/// There is no such place above the destination, and none on another drive.
pub open spec fn follow(path: Seq<Seq<char>>, piece: Seq<char>) -> Option<Seq<Seq<char>>> {
    if piece.len() == 0 || is_current(piece) {
        Some(path)
    } else if is_parent(piece) {
        if path.len() == 0 {
            None
        } else {
            Some(path.drop_last())
        }
    } else if is_drive_like(piece) {
        None
    } else {
        Some(path.push(piece))
    }
}

/// Where one gets from the destination by following `pieces` one after the
/// other, if every step stays inside it.
pub open spec fn descend(pieces: Seq<Seq<char>>) -> Option<Seq<Seq<char>>>
    decreases pieces.len(),
{
    if pieces.len() == 0 {
        Some(Seq::empty())
    } else {
        match descend(pieces.drop_last()) {
            None => None,
            Some(path) => follow(path, pieces.last()),
        }
    }
}

/// The stored path starts at a root, or holds a NUL.
pub open spec fn is_rooted_or_cut(name: Seq<char>) -> bool {
    (name.len() > 0 && is_separator(name[0])) || exists|i: int|
        0 <= i < name.len() && #[trigger] name[i] == '\0'
}

/// The path below the destination that the stored path `name` resolves to,
/// as the names to descend through; `None` if it has no safe reading.
pub open spec fn enclosed(name: Seq<char>) -> Option<Seq<Seq<char>>> {
    if is_rooted_or_cut(name) {
        None
    } else {
        descend(pieces(name))
    }
}

/// What a list of texts says.
pub open spec fn texts_view(texts: Seq<String>) -> Seq<Seq<char>> {
    Seq::new(texts.len(), |i: int| texts[i]@)
}

/// Calls `String::push`, which appends the character to the text.
#[verifier::external_body]
pub(crate) fn push_char(text: &mut String, c: char)
    ensures
        final(text)@ == old(text)@.push(c),
{
    text.push(c)
}

/// What is known of the piece that is being read.
struct PieceShape {
    len: usize,
    only_dots: bool,
    colon_second: bool,
}

impl PieceShape {
    spec fn describes(self, piece: Seq<char>) -> bool {
        &&& self.len == (if piece.len() < 3 {
            piece.len()
        } else {
            3
        })
        &&& self.only_dots == (forall|i: int| 0 <= i < piece.len() ==> #[trigger] piece[i] == '.')
        &&& self.colon_second == is_drive_like(piece)
    }

    fn empty() -> (shape: PieceShape)
        ensures
            shape.describes(Seq::empty()),
    {
        PieceShape { len: 0, only_dots: true, colon_second: false }
    }

    fn with(self, c: char, Ghost(piece): Ghost<Seq<char>>) -> (shape: PieceShape)
        requires
            self.describes(piece),
        ensures
            shape.describes(piece.push(c)),
    {
        let ghost longer = piece.push(c);
        let shape = PieceShape {
            len: if self.len < 3 {
                self.len + 1
            } else {
                3
            },
            only_dots: self.only_dots && c == '.',
            colon_second: self.colon_second || (self.len == 1 && c == ':'),
        };
        proof {
            if self.only_dots && c == '.' {
                assert forall|i: int| 0 <= i < longer.len() implies #[trigger] longer[i] == '.' by {
                    if i < piece.len() {
                        assert(piece[i] == '.');
                    }
                }
            } else if !self.only_dots {
                let i = choose|i: int| 0 <= i < piece.len() && #[trigger] piece[i] != '.';
                assert(longer[i] != '.');
            } else {
                assert(longer[piece.len() as int] != '.');
            }
        }
        shape
    }
}

/// Follows one piece from the directory reached so far.
fn follow_piece(path: &mut Vec<String>, piece: String, shape: PieceShape) -> (inside: bool)
    requires
        shape.describes(piece@),
    ensures
        match follow(texts_view(old(path)@), piece@) {
            Some(next) => inside && texts_view(final(path)@) == next,
            None => !inside,
        },
{
    let ghost before = texts_view(path@);
    if shape.len == 0 {
        true
    } else if shape.only_dots && shape.len == 1 {
        assert(piece@ =~= seq!['.']);
        true
    } else if shape.only_dots && shape.len == 2 {
        assert(piece@ =~= seq!['.', '.']);
        match path.pop() {
            None => false,
            Some(_) => {
                assert(texts_view(path@) =~= before.drop_last());
                true
            },
        }
    } else if shape.colon_second {
        assert(!is_current(piece@)) by {
            assert(piece@[1] == ':');
        }
        assert(!is_parent(piece@)) by {
            assert(piece@[1] == ':');
        }
        false
    } else {
        assert(!is_current(piece@) && !is_parent(piece@)) by {
            if shape.only_dots {
                assert(piece@.len() >= 3);
            } else {
                let i = choose|i: int| 0 <= i < piece@.len() && #[trigger] piece@[i] != '.';
                if is_current(piece@) {
                    assert(seq!['.'][i] == '.');
                }
                if is_parent(piece@) {
                    assert(seq!['.', '.'][i] == '.');
                }
            }
        }
        path.push(piece);
        assert(texts_view(path@) =~= before.push(piece@));
        true
    }
}

/// Resolves the stored path of an archive entry below the destination
/// directory.
///
/// The path is read piece by piece, a slash of either kind parting the
/// pieces. Empty pieces and `.` are passed over, `..` goes one level up,
/// any other piece one level down. The result is the list of names to
/// descend through from the destination. There is none, and the entry must be
/// skipped, if the path holds a NUL, starts with a separator, has a piece that
/// starts like a drive, or would at any point go above the destination.
pub fn enclosed_path(name: &str) -> (path: Option<Vec<String>>)
    ensures
        match path {
            Some(names) => enclosed(name@) == Some(texts_view(names@)),
            None => enclosed(name@) is None,
        },
{
    let mut path: Vec<String> = Vec::new();
    let mut piece = String::new();
    let mut shape = PieceShape::empty();
    let mut inside = true;
    let mut refused = false;
    let mut first = true;
    assert(name@.take(0) =~= Seq::<char>::empty());
    assert(texts_view(path@) =~= Seq::<Seq<char>>::empty());
    assert(pieces(Seq::<char>::empty()).drop_last() =~= Seq::<Seq<char>>::empty());
    for c in it: name.chars()
        invariant
            it.seq() == name@,
            first == (it.index() == 0),
            refused == is_rooted_or_cut(name@.take(it.index())),
            pieces(name@.take(it.index())).len() > 0,
            pieces(name@.take(it.index())).last() == piece@,
            shape.describes(piece@),
            descend(pieces(name@.take(it.index())).drop_last()) == (if inside {
                Some(texts_view(path@))
            } else {
                None
            }),
    {
        let ghost seen = name@.take(it.index());
        let ghost more = name@.take(it.index() + 1);
        assert(more.drop_last() =~= seen);
        assert(more.last() == c);
        proof {
            if is_rooted_or_cut(seen) {
                if seen.len() > 0 && is_separator(seen[0]) {
                    assert(more[0] == seen[0]);
                } else {
                    let i = choose|i: int| 0 <= i < seen.len() && #[trigger] seen[i] == '\0';
                    assert(more[i] == '\0');
                }
            } else if is_rooted_or_cut(more) {
                if !(more.len() > 0 && is_separator(more[0])) {
                    let i = choose|i: int| 0 <= i < more.len() && #[trigger] more[i] == '\0';
                    if i < seen.len() {
                        assert(seen[i] == '\0');
                    }
                } else if seen.len() > 0 {
                    assert(seen[0] == more[0]);
                }
            }
        }
        if c == '\0' {
            refused = true;
        }
        if c == '/' || c == '\\' {
            if first {
                refused = true;
            }
            let ghost before = pieces(seen);
            assert(pieces(more) == before.push(Seq::empty()));
            assert(pieces(more).drop_last() =~= before);
            if inside {
                inside = follow_piece(&mut path, piece, shape);
            }
            piece = String::new();
            shape = PieceShape::empty();
        } else {
            let ghost before = pieces(seen);
            assert(pieces(more) == before.drop_last().push(before.last().push(c)));
            assert(pieces(more).drop_last() =~= before.drop_last());
            shape = shape.with(c, Ghost(piece@));
            push_char(&mut piece, c);
        }
        first = false;
    }
    assert(name@.take(name@.len() as int) =~= name@);
    if inside {
        inside = follow_piece(&mut path, piece, shape);
    }
    if refused || !inside {
        None
    } else {
        Some(path)
    }
}

/// How many levels below the destination one is after following `pieces`, if
/// nothing stops one from going above it: `..` counts one up, a name one down.
pub open spec fn depth(pieces: Seq<Seq<char>>) -> int
    decreases pieces.len(),
{
    if pieces.len() == 0 {
        0
    } else {
        let piece = pieces.last();
        depth(pieces.drop_last()) + if piece.len() == 0 || is_current(piece) {
            0int
        } else if is_parent(piece) {
            -1int
        } else {
            1int
        }
    }
}

proof fn lemma_pieces_come_from_name(name: Seq<char>)
    ensures
        pieces(name).len() > 0,
        forall|k: int, i: int|
            0 <= k < pieces(name).len() && 0 <= i < pieces(name)[k].len() ==> !is_separator(
                #[trigger] pieces(name)[k][i],
            ) && exists|j: int| 0 <= j < name.len() && name[j] == pieces(name)[k][i],
    decreases name.len(),
{
    if name.len() > 0 {
        let shorter = name.drop_last();
        lemma_pieces_come_from_name(shorter);
        let before = pieces(shorter);
        let after = pieces(name);
        assert forall|k: int, i: int|
            0 <= k < after.len() && 0 <= i < after[k].len() implies !is_separator(
            #[trigger] after[k][i],
        ) && exists|j: int| 0 <= j < name.len() && name[j] == after[k][i] by {
            if k < before.len() && i < before[k].len() {
                assert(after[k][i] == before[k][i]);
                let j = choose|j: int| 0 <= j < shorter.len() && shorter[j] == before[k][i];
                assert(name[j] == after[k][i]);
            } else {
                assert(after[k][i] == name.last());
                assert(name[name.len() - 1] == after[k][i]);
            }
        }
    }
}

proof fn lemma_descend_keeps_plain(pieces: Seq<Seq<char>>)
    requires
        forall|k: int, i: int|
            0 <= k < pieces.len() && 0 <= i < pieces[k].len() ==> !is_separator(
                #[trigger] pieces[k][i],
            ) && pieces[k][i] != '\0',
    ensures
        descend(pieces) matches Some(path) ==> path.len() == depth(pieces) && forall|k: int|
            0 <= k < path.len() ==> is_plain(#[trigger] path[k]),
    decreases pieces.len(),
{
    if pieces.len() > 0 {
        let fewer = pieces.drop_last();
        assert forall|k: int, i: int|
            0 <= k < fewer.len() && 0 <= i < fewer[k].len() implies !is_separator(
            #[trigger] fewer[k][i],
        ) && fewer[k][i] != '\0' by {
            assert(fewer[k][i] == pieces[k][i]);
        }
        lemma_descend_keeps_plain(fewer);
        let last = pieces.last();
        assert(forall|i: int| 0 <= i < last.len() ==> last[i] == pieces[pieces.len() - 1][i]);
    }
}

proof fn lemma_descend_stays_refused(pieces: Seq<Seq<char>>, n: int)
    requires
        0 <= n <= pieces.len(),
        descend(pieces.take(n)) is None,
    ensures
        descend(pieces) is None,
    decreases pieces.len(),
{
    if n == pieces.len() {
        assert(pieces.take(n) =~= pieces);
    } else {
        assert(pieces.drop_last().take(n) =~= pieces.take(n));
        lemma_descend_stays_refused(pieces.drop_last(), n);
    }
}

/// Every name of a resolved path is the plain name of a file or directory:
/// following them from the destination never leaves it.
pub proof fn lemma_enclosed_is_plain(name: Seq<char>)
    ensures
        enclosed(name) matches Some(path) ==> forall|k: int|
            0 <= k < path.len() ==> is_plain(#[trigger] path[k]),
{
    if !is_rooted_or_cut(name) {
        lemma_pieces_come_from_name(name);
        let all = pieces(name);
        assert forall|k: int, i: int|
            0 <= k < all.len() && 0 <= i < all[k].len() implies !is_separator(#[trigger] all[k][i])
            && all[k][i] != '\0' by {
            let j = choose|j: int| 0 <= j < name.len() && name[j] == all[k][i];
            assert(name[j] != '\0');
        }
        lemma_descend_keeps_plain(all);
    }
}

/// A stored path that, read up to some piece, has gone up more levels than
/// down would resolve outside the destination: it has no resolved path.
pub proof fn lemma_escaping_is_refused(name: Seq<char>, n: int)
    requires
        0 <= n <= pieces(name).len(),
        depth(pieces(name).take(n)) < 0,
    ensures
        enclosed(name) is None,
{
    if !is_rooted_or_cut(name) {
        lemma_pieces_come_from_name(name);
        let all = pieces(name);
        let some = all.take(n);
        assert forall|k: int, i: int|
            0 <= k < some.len() && 0 <= i < some[k].len() implies !is_separator(
            #[trigger] some[k][i],
        ) && some[k][i] != '\0' by {
            assert(some[k][i] == all[k][i]);
            let j = choose|j: int| 0 <= j < name.len() && name[j] == all[k][i];
            assert(name[j] != '\0');
        }
        lemma_descend_keeps_plain(some);
        lemma_descend_stays_refused(all, n);
    }
}

} // verus!
