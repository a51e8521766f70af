//! The class-list decoder.
//!
//! A piece element's class attribute is a whitespace-delimited token
//! list: the literal marker `piece`, the piece kind, a square token, and
//! optionally the literal drag flag `dragging` in fourth position. The
//! square is decoded by the suffix-digit convention: the square token's
//! last two characters are each read as one decimal digit, giving the
//! file and the rank. (A prefix-based variant of the markup, where the
//! digits follow a literal `square-` prefix, decodes identically under
//! this convention and is not treated separately.)

use crate::piece::opt_piece_view;
use crate::piece::Piece;
use crate::piece::PieceView;
use vstd::prelude::*;
use vstd::string::StrSliceExecFns;

verus! {

/// The class-list grammar splits on Unicode whitespace: the character
/// set of `char::is_whitespace` (the `White_Space` property), written
/// out by code point.
pub open spec fn is_ws(c: char) -> bool {
    let v = c as u32;
    (0x9 <= v && v <= 0xD) || v == 0x20 || v == 0x85 || v == 0xA0 || v == 0x1680 || (0x2000 <= v
        && v <= 0x200A) || v == 0x2028 || v == 0x2029 || v == 0x202F || v == 0x205F || v == 0x3000
}

/// Accumulator form of whitespace tokenization: `cur` is the (possibly
/// empty) token collected so far when the remaining input `s` starts.
pub open spec fn toks(s: Seq<char>, cur: Seq<char>) -> Seq<Seq<char>>
    decreases s.len(),
{
    if s.len() == 0 {
        if cur.len() == 0 {
            Seq::empty()
        } else {
            seq![cur]
        }
    } else if is_ws(s[0]) {
        if cur.len() == 0 {
            toks(s.drop_first(), Seq::empty())
        } else {
            seq![cur] + toks(s.drop_first(), Seq::empty())
        }
    } else {
        toks(s.drop_first(), cur.push(s[0]))
    }
}

/// The whitespace-delimited tokens of `s`, in order; runs of whitespace
/// produce no empty tokens.
pub open spec fn tokens_of(s: Seq<char>) -> Seq<Seq<char>> {
    toks(s, Seq::empty())
}

/// View of a vector of owned strings as a sequence of character sequences.
pub open spec fn str_views(v: Seq<String>) -> Seq<Seq<char>> {
    Seq::new(v.len(), |i: int| v[i]@)
}

fn is_ws_exec(c: char) -> (r: bool)
    ensures
        r == is_ws(c),
{
    let v: u32 = c as u32;
    (0x9 <= v && v <= 0xD) || v == 0x20 || v == 0x85 || v == 0xA0 || v == 0x1680 || (0x2000 <= v
        && v <= 0x200A) || v == 0x2028 || v == 0x2029 || v == 0x202F || v == 0x205F || v == 0x3000
}

/// Split a string on runs of whitespace into its non-empty tokens.
pub fn split_whitespace_tokens(s: &str) -> (r: Vec<String>)
    ensures
        str_views(r@) == tokens_of(s@),
{
    let len: usize = s.unicode_len();
    let mut out: Vec<String> = Vec::new();
    let mut i: usize = 0;
    let mut start: usize = 0;
    let mut in_tok: bool = false;
    proof {
        assert(s@.skip(0) =~= s@);
        assert(str_views(out@) + toks(s@, Seq::empty()) =~= tokens_of(s@));
    }
    while i < len
        invariant
            i <= len,
            len == s@.len(),
            in_tok ==> start < i,
            str_views(out@) + toks(
                s@.skip(i as int),
                (if in_tok {
                    s@.subrange(start as int, i as int)
                } else {
                    Seq::<char>::empty()
                }),
            ) == tokens_of(s@),
        decreases len - i,
    {
        let ghost cur: Seq<char> = if in_tok {
            s@.subrange(start as int, i as int)
        } else {
            Seq::<char>::empty()
        };
        proof {
            assert(s@.skip(i as int).len() == len - i);
            assert(s@.skip(i as int)[0] == s@[i as int]);
            assert(s@.skip(i as int).drop_first() =~= s@.skip(i as int + 1));
        }
        let c = s.get_char(i);
        if is_ws_exec(c) {
            if in_tok {
                let ghost out0 = out@;
                let tok = s.substring_char(start, i);
                out.push(tok.to_owned());
                in_tok = false;
                proof {
                    assert(cur.len() > 0);
                    assert(toks(s@.skip(i as int), cur) == seq![cur] + toks(
                        s@.skip(i as int + 1),
                        Seq::empty(),
                    ));
                    assert(str_views(out@) =~= str_views(out0).push(cur));
                    assert(str_views(out@) + toks(s@.skip(i as int + 1), Seq::<char>::empty())
                        =~= (str_views(out0) + toks(s@.skip(i as int), cur)));
                }
            } else {
                proof {
                    assert(toks(s@.skip(i as int), cur) == toks(
                        s@.skip(i as int + 1),
                        Seq::empty(),
                    ));
                }
            }
        } else {
            if !in_tok {
                start = i;
                in_tok = true;
            }
            proof {
                assert(toks(s@.skip(i as int), cur) == toks(
                    s@.skip(i as int + 1),
                    cur.push(s@[i as int]),
                ));
                assert(s@.subrange(start as int, i as int + 1) =~= cur.push(s@[i as int]));
            }
        }
        i += 1;
    }
    proof {
        assert(s@.skip(len as int) =~= Seq::<char>::empty());
    }
    if in_tok {
        let ghost out0 = out@;
        let tok = s.substring_char(start, len);
        out.push(tok.to_owned());
        proof {
            let cur = s@.subrange(start as int, len as int);
            assert(cur.len() > 0);
            assert(toks(Seq::<char>::empty(), cur) == seq![cur]);
            assert(str_views(out@) =~= str_views(out0) + seq![cur]);
        }
    }
    proof {
        assert(str_views(out@) =~= tokens_of(s@));
    }
    out
}

/// The decimal digit a character stands for, if any.
pub open spec fn digit_of(c: char) -> Option<u8> {
    let v = c as u32;
    if 48 <= v && v <= 57 {
        Some((v - 48) as u8)
    } else {
        None
    }
}

/// Decode one character as a decimal digit.
pub fn u8_from_char(c: &Option<char>) -> (r: Option<u8>)
    ensures
        r == (match *c {
            Some(ch) => digit_of(ch),
            None => None::<u8>,
        }),
{
    match c {
        Some(ch) => {
            let v: u32 = *ch as u32;
            if 48 <= v && v <= 57 {
                Some((v - 48) as u8)
            } else {
                None
            }
        },
        None => None,
    }
}

/// The board square a class token encodes: its last two characters, each
/// read as one decimal digit.
pub open spec fn spec_square(t: Seq<char>) -> Option<(u8, u8)> {
    if t.len() < 2 {
        None
    } else {
        match (digit_of(t[t.len() - 2]), digit_of(t[t.len() - 1])) {
            (Some(x), Some(y)) => Some((x, y)),
            _ => None,
        }
    }
}

/// Decode the board square from a square token; both suffix characters
/// must be decimal digits, else no square is produced.
pub fn square_from_class(class: &String) -> (r: Option<(u8, u8)>)
    ensures
        r == spec_square(class@),
{
    let len: usize = class.as_str().unicode_len();
    if len < 2 {
        return None;
    }
    let second_last = u8_from_char(&Some(class.as_str().get_char(len - 2)));
    let last = u8_from_char(&Some(class.as_str().get_char(len - 1)));
    match (second_last, last) {
        (Some(x), Some(y)) => Some((x, y)),
        _ => None,
    }
}

/// The literal marker token that must open a piece class list.
pub open spec fn marker() -> Seq<char> {
    "piece"@
}

/// The literal fourth token that flags an active drag.
pub open spec fn drag_token() -> Seq<char> {
    "dragging"@
}

/// What the class-list decoder yields on `s`: a piece identity when the
/// tokens open with the marker, at least three tokens are present and the
/// square token decodes; otherwise nothing. A fourth token equal to the
/// drag flag sets `dragged`; trailing tokens are ignored; the pixel offset
/// is left at its default.
pub open spec fn spec_decode_classes(s: Seq<char>) -> Option<PieceView> {
    let ts = tokens_of(s);
    if ts.len() < 3 {
        None
    } else if ts[0] != marker() {
        None
    } else {
        match spec_square(ts[2]) {
            None => None,
            Some(sq) => Some(
                PieceView {
                    piece_type: ts[1],
                    square_x: sq.0,
                    square_y: sq.1,
                    dragged: ts.len() >= 4 && ts[3] == drag_token(),
                    x_pos_text: None,
                    y_pos_text: None,
                },
            ),
        }
    }
}

/// Decode a raw class-list string into a piece identity, or nothing when
/// the string is malformed; a partial identity is never produced.
pub fn extract_piece_from_classes(classes: String) -> (r: Option<Piece>)
    ensures
        opt_piece_view(r) == spec_decode_classes(classes@),
{
    let toks: Vec<String> = split_whitespace_tokens(classes.as_str());
    if toks.len() < 3 {
        return None;
    }
    let marker_tok: String = "piece".to_owned();
    if !(toks[0] == marker_tok) {
        return None;
    }
    let square = square_from_class(&toks[2]);
    match square {
        None => None,
        Some((x, y)) => {
            let drag_tok: String = "dragging".to_owned();
            let dragged = toks.len() >= 4 && toks[3] == drag_tok;
            Some(
                Piece {
                    piece_type: toks[1].clone(),
                    square_x: x,
                    square_y: y,
                    dragged,
                    x_pos_text: None,
                    y_pos_text: None,
                },
            )
        },
    }
}

/// Law: a class list whose tokens do not open with the marker yields no
/// piece.
pub proof fn lemma_missing_marker_no_piece(s: Seq<char>)
    requires
        tokens_of(s).len() == 0 || tokens_of(s)[0] != marker(),
    ensures
        spec_decode_classes(s) is None,
{
}

/// Law: a class list with fewer than three tokens yields no piece.
pub proof fn lemma_too_few_tokens_no_piece(s: Seq<char>)
    requires
        tokens_of(s).len() < 3,
    ensures
        spec_decode_classes(s) is None,
{
}

/// Law: when the square token does not end in two decimal digits, no
/// piece is produced at all, identity fields included.
pub proof fn lemma_bad_square_no_piece(s: Seq<char>)
    requires
        tokens_of(s).len() >= 3,
        spec_square(tokens_of(s)[2]) is None,
    ensures
        spec_decode_classes(s) is None,
{
}

/// Every token the tokenizer yields is non-empty, whatever token was
/// already being collected.
pub proof fn lemma_toks_nonempty(s: Seq<char>, cur: Seq<char>)
    ensures
        forall|k: int| 0 <= k < toks(s, cur).len() ==> toks(s, cur)[k].len() > 0,
    decreases s.len(),
{
    if s.len() == 0 {
        if cur.len() > 0 {
            assert(toks(s, cur) == seq![cur]);
            assert(toks(s, cur)[0] == cur);
        }
    } else if is_ws(s[0]) {
        lemma_toks_nonempty(s.drop_first(), Seq::empty());
        if cur.len() > 0 {
            assert(toks(s, cur) == seq![cur] + toks(s.drop_first(), Seq::empty()));
            assert forall|k: int| 0 <= k < toks(s, cur).len() implies toks(s, cur)[k].len()
                > 0 by {
                if k == 0 {
                    assert(toks(s, cur)[0] == cur);
                } else {
                    assert(toks(s, cur)[k] == toks(s.drop_first(), Seq::empty())[k - 1]);
                }
            }
        } else {
            assert(toks(s, cur) == toks(s.drop_first(), Seq::empty()));
        }
    } else {
        lemma_toks_nonempty(s.drop_first(), cur.push(s[0]));
        assert(toks(s, cur) == toks(s.drop_first(), cur.push(s[0])));
    }
}

/// Law: a decoded piece never carries an empty kind; the kind is a whole
/// non-empty class token.
pub proof fn lemma_kind_nonempty(s: Seq<char>)
    ensures
        spec_decode_classes(s) is Some ==> spec_decode_classes(s)->0.piece_type.len() > 0,
{
    lemma_toks_nonempty(s, Seq::empty());
}

/// Law: decoded board coordinates are single decimal digits.
pub proof fn lemma_square_bounds(s: Seq<char>)
    ensures
        spec_decode_classes(s) is Some ==> spec_decode_classes(s)->0.square_x <= 9
            && spec_decode_classes(s)->0.square_y <= 9,
{
}

/// Law: a decoded piece is dragged exactly when a fourth token equal to
/// the drag flag is present; any other fourth token leaves it undragged.
pub proof fn lemma_drag_flag(s: Seq<char>)
    ensures
        spec_decode_classes(s) is Some ==> (spec_decode_classes(s)->0.dragged <==> (tokens_of(
            s,
        ).len() >= 4 && tokens_of(s)[3] == drag_token())),
{
}

} // verus!
