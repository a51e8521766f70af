use crate::classlist::str_views;
use crate::piece::opt_str_view;
use crate::piece::Piece;
use crate::piece::PieceView;
use vstd::prelude::*;
use vstd::string::StrSliceExecFns;

verus! {

/// Index of the first occurrence of `pat` in `s`, if any.
pub open spec fn find_sub(s: Seq<char>, pat: Seq<char>) -> Option<int>
    decreases s.len(),
{
    if s.len() < pat.len() {
        None
    } else if s.take(pat.len() as int) =~= pat {
        Some(0int)
    } else if s.len() == 0 {
        None
    } else {
        match find_sub(s.drop_first(), pat) {
            Some(k) => Some(k + 1),
            None => None,
        }
    }
}

/// Shift a found index by `i` positions.
pub open spec fn find_shift(o: Option<int>, i: int) -> Option<int> {
    match o {
        Some(k) => Some(k + i),
        None => None,
    }
}

/// A found occurrence lies within the string.
pub proof fn lemma_find_sub_bounds(s: Seq<char>, pat: Seq<char>)
    ensures
        find_sub(s, pat) is Some ==> 0 <= find_sub(s, pat)->0 && find_sub(s, pat)->0 + pat.len()
            <= s.len(),
    decreases s.len(),
{
    if s.len() < pat.len() {
    } else if s.take(pat.len() as int) =~= pat {
    } else if s.len() == 0 {
    } else {
        lemma_find_sub_bounds(s.drop_first(), pat);
    }
}

/// Whether `pat` occurs in `s` starting at position `i`.
fn match_at(s: &str, pat: &str, i: usize) -> (r: bool)
    requires
        i + pat@.len() <= s@.len(),
    ensures
        r == (s@.subrange(i as int, i as int + pat@.len() as int) =~= pat@),
{
    let n: usize = s.unicode_len();
    let m: usize = pat.unicode_len();
    let mut j: usize = 0;
    while j < m
        invariant
            j <= m,
            m == pat@.len(),
            n == s@.len(),
            i + m <= s@.len(),
            forall|k: int| 0 <= k < j ==> s@[i + k] == pat@[k],
        decreases m - j,
    {
        let sc = s.get_char(i + j);
        let pc = pat.get_char(j);
        if sc != pc {
            proof {
                assert(s@.subrange(i as int, i as int + m as int)[j as int] == s@[i + j]);
            }
            return false;
        }
        j += 1;
    }
    proof {
        assert(s@.subrange(i as int, i as int + m as int) =~= pat@);
    }
    true
}

/// Find the first occurrence of `pat` in `s`.
fn find_in(s: &str, pat: &str) -> (r: Option<usize>)
    requires
        pat@.len() >= 1,
    ensures
        (match r {
            Some(k) => find_sub(s@, pat@) == Some(k as int),
            None => find_sub(s@, pat@) is None,
        }),
{
    let n: usize = s.unicode_len();
    let m: usize = pat.unicode_len();
    if m > n {
        return None;
    }
    let mut i: usize = 0;
    proof {
        assert(s@.skip(0) =~= s@);
    }
    while i <= n - m
        invariant
            1 <= m <= n,
            m == pat@.len(),
            n == s@.len(),
            i <= n - m + 1,
            find_sub(s@, pat@) == find_shift(find_sub(s@.skip(i as int), pat@), i as int),
        decreases n - m + 1 - i,
    {
        let ghost si = s@.skip(i as int);
        proof {
            assert(si.len() == n - i);
            assert(si.take(m as int) =~= s@.subrange(i as int, i as int + m as int));
        }
        if match_at(s, pat, i) {
            proof {
                assert(find_sub(si, pat@) == Some(0int));
            }
            return Some(i);
        }
        proof {
            assert(!(si.take(m as int) =~= pat@));
            assert(si.drop_first() =~= s@.skip(i as int + 1));
            assert(find_sub(si, pat@) == find_shift(find_sub(s@.skip(i as int + 1), pat@), 1));
        }
        i += 1;
    }
    proof {
        assert(s@.skip(i as int).len() < m);
        assert(find_sub(s@.skip(i as int), pat@) is None);
    }
    None
}

/// Accumulator form of splitting on the two-character separator `", "`:
/// `cur` is the field collected so far when the remaining input `s`
/// starts. The final field is always produced, even when empty.
pub open spec fn split_sep(s: Seq<char>, cur: Seq<char>) -> Seq<Seq<char>>
    decreases s.len(),
{
    if s.len() == 0 {
        seq![cur]
    } else if s.len() >= 2 && s[0] == ',' && s[1] == ' ' {
        seq![cur] + split_sep(s.skip(2), Seq::empty())
    } else {
        split_sep(s.drop_first(), cur.push(s[0]))
    }
}

/// The fields of `s` split on the literal separator `", "`, in order.
pub open spec fn comma_fields(s: Seq<char>) -> Seq<Seq<char>> {
    split_sep(s, Seq::empty())
}

/// Split a string on the literal separator `", "`.
fn split_comma_space(s: &str) -> (r: Vec<String>)
    ensures
        str_views(r@) == comma_fields(s@),
{
    let len: usize = s.unicode_len();
    let mut out: Vec<String> = Vec::new();
    let mut i: usize = 0;
    let mut start: usize = 0;
    proof {
        assert(s@.skip(0) =~= s@);
        assert(s@.subrange(0, 0) =~= Seq::<char>::empty());
        assert(str_views(out@) + split_sep(s@, Seq::empty()) =~= comma_fields(s@));
    }
    while i < len
        invariant
            start <= i <= len,
            len == s@.len(),
            str_views(out@) + split_sep(s@.skip(i as int), s@.subrange(start as int, i as int))
                == comma_fields(s@),
        decreases len - i,
    {
        let ghost cur = s@.subrange(start as int, i as int);
        proof {
            assert(s@.skip(i as int).len() == len - i);
            assert(s@.skip(i as int)[0] == s@[i as int]);
        }
        let c = s.get_char(i);
        if c == ',' && i + 1 < len && s.get_char(i + 1) == ' ' {
            let ghost out0 = out@;
            let tok = s.substring_char(start, i);
            out.push(tok.to_owned());
            proof {
                assert(s@.skip(i as int)[1] == s@[i as int + 1]);
                assert(s@.skip(i as int).skip(2) =~= s@.skip(i as int + 2));
                assert(split_sep(s@.skip(i as int), cur) == seq![cur] + split_sep(
                    s@.skip(i as int + 2),
                    Seq::empty(),
                ));
                assert(str_views(out@) =~= str_views(out0).push(cur));
                assert(str_views(out@) + split_sep(s@.skip(i as int + 2), Seq::<char>::empty())
                    =~= (str_views(out0) + split_sep(s@.skip(i as int), cur)));
                assert(s@.subrange(i as int + 2, i as int + 2) =~= Seq::<char>::empty());
            }
            i += 2;
            start = i;
        } else {
            proof {
                assert(s@.skip(i as int).drop_first() =~= s@.skip(i as int + 1));
                if s@.skip(i as int).len() >= 2 {
                    assert(s@.skip(i as int)[1] == s@[i as int + 1]);
                }
                assert(split_sep(s@.skip(i as int), cur) == split_sep(
                    s@.skip(i as int + 1),
                    cur.push(s@[i as int]),
                ));
                assert(s@.subrange(start as int, i as int + 1) =~= cur.push(s@[i as int]));
            }
            i += 1;
        }
    }
    let ghost out0 = out@;
    let ghost cur = s@.subrange(start as int, len as int);
    let tok = s.substring_char(start, len);
    out.push(tok.to_owned());
    proof {
        assert(s@.skip(len as int) =~= Seq::<char>::empty());
        assert(split_sep(Seq::<char>::empty(), cur) == seq![cur]);
        assert(str_views(out@) =~= str_views(out0) + seq![cur]);
        assert(str_views(out@) =~= comma_fields(s@));
    }
    out
}

/// The literal marker that opens the transform's matrix call.
pub open spec fn matrix_open() -> Seq<char> {
    "matrix("@
}

/// The literal closing delimiter of the matrix call.
pub open spec fn close_paren() -> Seq<char> {
    ")"@
}

/// The raw translation fields of a transform string: the 5th and 6th
/// `", "`-separated fields between the first `matrix(` and the next `)`.
/// A missing delimiter or a missing field yields `None` for that side.
pub open spec fn spec_transform_tokens(t: Seq<char>) -> (Option<Seq<char>>, Option<Seq<char>>) {
    match find_sub(t, matrix_open()) {
        None => (None, None),
        Some(i) => {
            let rest = t.skip(i + matrix_open().len());
            match find_sub(rest, close_paren()) {
                None => (None, None),
                Some(j) => {
                    let fields = comma_fields(rest.take(j));
                    (
                        (if fields.len() >= 5 {
                            Some(fields[4])
                        } else {
                            None
                        }),
                        (if fields.len() >= 6 {
                            Some(fields[5])
                        } else {
                            None
                        }),
                    )
                },
            }
        },
    }
}

/// Capture the raw translation fields from a transform string.
pub fn transform_tokens(transform: &str) -> (r: (Option<String>, Option<String>))
    ensures
        opt_str_view(r.0) == spec_transform_tokens(transform@).0,
        opt_str_view(r.1) == spec_transform_tokens(transform@).1,
{
    proof {
        reveal_strlit("matrix(");
        reveal_strlit(")");
    }
    let open_pat = "matrix(";
    let close_pat = ")";
    match find_in(transform, open_pat) {
        None => (None, None),
        Some(i) => {
            proof {
                lemma_find_sub_bounds(transform@, open_pat@);
            }
            let plen: usize = open_pat.unicode_len();
            let tlen: usize = transform.unicode_len();
            let rest = transform.substring_char(i + plen, tlen);
            proof {
                assert(rest@ =~= transform@.skip(i as int + plen as int));
            }
            match find_in(rest, close_pat) {
                None => (None, None),
                Some(j) => {
                    proof {
                        lemma_find_sub_bounds(rest@, close_pat@);
                    }
                    let content = rest.substring_char(0, j);
                    proof {
                        assert(content@ =~= rest@.take(j as int));
                    }
                    let fields = split_comma_space(content);
                    let x: Option<String> = if fields.len() >= 5 {
                        Some(fields[4].clone())
                    } else {
                        None
                    };
                    let y: Option<String> = if fields.len() >= 6 {
                        Some(fields[5].clone())
                    } else {
                        None
                    };
                    (x, y)
                },
            }
        },
    }
}

/// A piece with its pixel-offset text populated from the transform
/// fields; a side whose field is absent keeps its previous value, and the
/// identity fields are never touched.
pub open spec fn spec_set_position(p: PieceView, t: Seq<char>) -> PieceView {
    let xy = spec_transform_tokens(t);
    PieceView {
        x_pos_text: if xy.0 is Some {
            xy.0
        } else {
            p.x_pos_text
        },
        y_pos_text: if xy.1 is Some {
            xy.1
        } else {
            p.y_pos_text
        },
        ..p
    }
}

/// Populate a piece's pixel-offset text from its transform string.
pub fn set_piece_position(piece: Piece, transform: String) -> (r: Piece)
    ensures
        r@ == spec_set_position(piece@, transform@),
{
    let (x, y) = transform_tokens(transform.as_str());
    let mut piece = piece;
    match x {
        Some(xs) => {
            piece.x_pos_text = Some(xs);
        },
        None => {},
    }
    match y {
        Some(ys) => {
            piece.y_pos_text = Some(ys);
        },
        None => {},
    }
    piece
}

/// Law: whatever the transform string holds, populating the position
/// never changes the identity fields.
pub proof fn lemma_position_preserves_identity(p: PieceView, t: Seq<char>)
    ensures
        spec_set_position(p, t).piece_type == p.piece_type,
        spec_set_position(p, t).square_x == p.square_x,
        spec_set_position(p, t).square_y == p.square_y,
        spec_set_position(p, t).dragged == p.dragged,
{
}

/// Law: a transform string without the `matrix(` marker leaves the piece
/// exactly as it was, default position included.
pub proof fn lemma_no_matrix_marker_keeps_piece(p: PieceView, t: Seq<char>)
    requires
        find_sub(t, matrix_open()) is None,
    ensures
        spec_set_position(p, t) == p,
{
}

} // verus!
