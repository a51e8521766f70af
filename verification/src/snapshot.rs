use crate::classlist::extract_piece_from_classes;
use crate::classlist::spec_decode_classes;
use crate::piece::opt_piece_view;
use crate::piece::opt_str_view;
use crate::piece::Piece;
use crate::piece::PieceView;
use crate::piece::RawElement;
use crate::piece::RawElementView;
use crate::transform::set_piece_position;
use crate::transform::spec_set_position;
use vstd::prelude::*;

verus! {

/// What one raw element decodes to: the class list gives the identity;
/// when a transform string was delivered, the position text is populated
/// from it. No class list, or a malformed one, gives no piece; a missing
/// transform leaves the position at its default.
pub open spec fn spec_extract(class: Option<Seq<char>>, transform: Option<Seq<char>>) -> Option<
    PieceView,
> {
    match class {
        None => None,
        Some(c) => match spec_decode_classes(c) {
            None => None,
            Some(p) => match transform {
                None => Some(p),
                Some(t) => Some(spec_set_position(p, t)),
            },
        },
    }
}

/// The per-element decode, as a function on a raw element's view.
pub open spec fn extract_fn() -> spec_fn(RawElementView) -> Option<PieceView> {
    |r: RawElementView| spec_extract(r.class, r.transform)
}

/// Whether a raw element decodes to a piece.
pub open spec fn decode_ok() -> spec_fn(RawElementView) -> bool {
    |r: RawElementView| spec_extract(r.class, r.transform) is Some
}

/// Whether a raw element fails to decode.
pub open spec fn decode_failed() -> spec_fn(RawElementView) -> bool {
    |r: RawElementView| spec_extract(r.class, r.transform) is None
}

/// The piece a decodable raw element stands for.
pub open spec fn decode_map() -> spec_fn(RawElementView) -> PieceView {
    |r: RawElementView| spec_extract(r.class, r.transform)->0
}

/// Decode one raw element into a piece, or nothing when its class list is
/// absent or malformed.
pub fn extract_piece_data(class: Option<String>, transform: Option<String>) -> (r: Option<Piece>)
    ensures
        opt_piece_view(r) == spec_extract(opt_str_view(class), opt_str_view(transform)),
{
    let classes = match class {
        Some(c) => c,
        None => {
            return None;
        },
    };
    let piece = match extract_piece_from_classes(classes) {
        Some(p) => p,
        None => {
            return None;
        },
    };
    match transform {
        Some(t) => Some(set_piece_position(piece, t)),
        None => Some(piece),
    }
}

/// View of a sequence of raw elements.
pub open spec fn raw_views(rs: Seq<RawElement>) -> Seq<RawElementView> {
    Seq::new(rs.len(), |i: int| rs[i]@)
}

/// View of a sequence of pieces.
pub open spec fn piece_views(ps: Seq<Piece>) -> Seq<PieceView> {
    Seq::new(ps.len(), |i: int| ps[i]@)
}

/// The snapshot one poll cycle yields from its raw elements: each
/// decoded piece in DOM-query order, undecodable elements skipped.
pub open spec fn spec_snapshot(rs: Seq<RawElementView>) -> Seq<PieceView> {
    rs.filter_map(extract_fn())
}

/// Assemble the snapshot of one poll cycle from the raw elements the
/// page query delivered, in their query order.
pub fn get_pieces_positions(raw: &Vec<RawElement>) -> (r: Vec<Piece>)
    ensures
        piece_views(r@) == spec_snapshot(raw_views(raw@)),
{
    let ghost rv = raw_views(raw@);
    let mut out: Vec<Piece> = Vec::new();
    let mut i: usize = 0;
    proof {
        assert(rv.take(0) =~= Seq::<RawElementView>::empty());
        assert(piece_views(out@) =~= rv.take(0).filter_map(extract_fn()));
    }
    while i < raw.len()
        invariant
            i <= raw.len(),
            rv == raw_views(raw@),
            piece_views(out@) == rv.take(i as int).filter_map(extract_fn()),
        decreases raw.len() - i,
    {
        let e = &raw[i];
        let class: Option<String> = match &e.class {
            Some(s) => Some(s.clone()),
            None => None,
        };
        let transform: Option<String> = match &e.transform {
            Some(s) => Some(s.clone()),
            None => None,
        };
        proof {
            assert(opt_str_view(class) == rv[i as int].class);
            assert(opt_str_view(transform) == rv[i as int].transform);
        }
        let decoded = extract_piece_data(class, transform);
        proof {
            rv.lemma_filter_map_take_succ(extract_fn(), i as int);
        }
        let ghost out0 = out@;
        match decoded {
            Some(p) => {
                out.push(p);
                proof {
                    assert(piece_views(out@) =~= piece_views(out0) + seq![p@]);
                    assert(piece_views(out@) =~= rv.take(i as int + 1).filter_map(extract_fn()));
                }
            },
            None => {
                proof {
                    assert(piece_views(out@) =~= rv.take(i as int + 1).filter_map(extract_fn()));
                }
            },
        }
        i += 1;
    }
    proof {
        assert(rv.take(raw.len() as int) =~= rv);
    }
    out
}

/// Law: of `N` raw elements of which `M` fail to decode, the snapshot
/// holds exactly `N - M` pieces.
pub proof fn lemma_snapshot_counts(rs: Seq<RawElementView>)
    ensures
        spec_snapshot(rs).len() + rs.filter(decode_failed()).len() == rs.len(),
    decreases rs.len(),
{
    reveal(Seq::filter);
    if rs.len() == 0 {
    } else {
        lemma_snapshot_counts(rs.drop_last());
    }
}

/// Law: the snapshot is exactly the decodable raw elements, kept in
/// their original relative order, each mapped to its decoded piece.
pub proof fn lemma_snapshot_order(rs: Seq<RawElementView>)
    ensures
        spec_snapshot(rs) == rs.filter(decode_ok()).map_values(decode_map()),
    decreases rs.len(),
{
    reveal(Seq::filter);
    if rs.len() == 0 {
        assert(spec_snapshot(rs) =~= rs.filter(decode_ok()).map_values(decode_map()));
    } else {
        let rest = rs.drop_last();
        let l = rs.last();
        lemma_snapshot_order(rest);
        if decode_ok()(l) {
            assert(rs.filter(decode_ok()) == rest.filter(decode_ok()).push(l));
            assert(rs.filter(decode_ok()).map_values(decode_map()) =~= rest.filter(
                decode_ok(),
            ).map_values(decode_map()).push(decode_map()(l)));
            assert(spec_snapshot(rs) =~= spec_snapshot(rest) + seq![decode_map()(l)]);
            assert(spec_snapshot(rs) =~= rs.filter(decode_ok()).map_values(decode_map()));
        } else {
            assert(rs.filter(decode_ok()) == rest.filter(decode_ok()));
            assert(spec_snapshot(rs) =~= rs.filter(decode_ok()).map_values(decode_map()));
        }
    }
}

/// Law: a poll cycle that sees exactly two raw elements, the first
/// decodable and the second not, yields a snapshot of exactly the first
/// element's piece.
pub proof fn lemma_snapshot_pair(r1: RawElementView, r2: RawElementView)
    requires
        spec_extract(r1.class, r1.transform) is Some,
        spec_extract(r2.class, r2.transform) is None,
    ensures
        spec_snapshot(seq![r1, r2]) == seq![spec_extract(r1.class, r1.transform)->0],
{
    let s = seq![r1, r2];
    let f = extract_fn();
    assert(s.last() == r2);
    assert(f(r2) is None);
    assert(s.drop_last() =~= seq![r1]);
    assert(s.filter_map(f) == seq![r1].filter_map(f));
    Seq::<RawElementView>::lemma_filter_map_singleton(r1, f);
    assert(spec_snapshot(s) =~= seq![spec_extract(r1.class, r1.transform)->0]);
}

} // verus!
