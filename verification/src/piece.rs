use vstd::prelude::*;

verus! {

/// View of an `Option<String>` as an optional character sequence.
pub open spec fn opt_str_view(o: Option<String>) -> Option<Seq<char>> {
    match o {
        Some(s) => Some(s@),
        None => None,
    }
}

/// View of an optional decode result as an optional piece view.
pub open spec fn opt_piece_view(r: Option<Piece>) -> Option<PieceView> {
    match r {
        Some(p) => Some(p@),
        None => None,
    }
}

/// One piece as decoded from a single DOM element.
///
/// `piece_type`, `square_x`, `square_y` and `dragged` come from the class
/// list; a piece is only ever built with all of them decoded. The pixel
/// offset is kept as the raw numeric text captured from the transform
/// string (`None` stands for the default offset `0.0`); turning that text
/// into a float is left to the unverified rim around this crate.
#[derive(Clone, Debug, PartialEq, Eq)]
pub struct Piece {
    pub piece_type: String,
    pub square_x: u8,
    pub square_y: u8,
    pub dragged: bool,
    pub x_pos_text: Option<String>,
    pub y_pos_text: Option<String>,
}

/// Mathematical view of a `Piece`: the same fields over `Seq<char>`.
pub struct PieceView {
    pub piece_type: Seq<char>,
    pub square_x: u8,
    pub square_y: u8,
    pub dragged: bool,
    pub x_pos_text: Option<Seq<char>>,
    pub y_pos_text: Option<Seq<char>>,
}

impl View for Piece {
    type V = PieceView;

    open spec fn view(&self) -> PieceView {
        PieceView {
            piece_type: self.piece_type@,
            square_x: self.square_x,
            square_y: self.square_y,
            dragged: self.dragged,
            x_pos_text: opt_str_view(self.x_pos_text),
            y_pos_text: opt_str_view(self.y_pos_text),
        }
    }
}

/// The two attribute strings observed for one DOM element: its class list
/// and its computed transform. `None` stands for an attribute the browser
/// query could not deliver.
#[derive(Clone, Debug, PartialEq, Eq)]
pub struct RawElement {
    pub class: Option<String>,
    pub transform: Option<String>,
}

/// Mathematical view of a `RawElement`.
pub struct RawElementView {
    pub class: Option<Seq<char>>,
    pub transform: Option<Seq<char>>,
}

impl View for RawElement {
    type V = RawElementView;

    open spec fn view(&self) -> RawElementView {
        RawElementView {
            class: opt_str_view(self.class),
            transform: opt_str_view(self.transform),
        }
    }
}

} // verus!
