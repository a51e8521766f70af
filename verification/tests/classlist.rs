use piece_watch::classlist::extract_piece_from_classes;
use piece_watch::classlist::square_from_class;
use piece_watch::classlist::u8_from_char;

#[test]
fn digit_decodes() {
    assert_eq!(u8_from_char(&Some('0')), Some(0));
    assert_eq!(u8_from_char(&Some('7')), Some(7));
    assert_eq!(u8_from_char(&Some('9')), Some(9));
}

#[test]
fn non_digit_fails() {
    assert_eq!(u8_from_char(&Some('x')), None);
    assert_eq!(u8_from_char(&Some(' ')), None);
    assert_eq!(u8_from_char(&None), None);
}

#[test]
fn square_suffix_digits() {
    assert_eq!(square_from_class(&"square52".to_string()), Some((5, 2)));
    assert_eq!(square_from_class(&"square-52".to_string()), Some((5, 2)));
    assert_eq!(square_from_class(&"09".to_string()), Some((0, 9)));
}

#[test]
fn square_rejects_non_numeric() {
    assert_eq!(square_from_class(&"squarexy".to_string()), None);
    assert_eq!(square_from_class(&"square5x".to_string()), None);
    assert_eq!(square_from_class(&"square-x2".to_string()), None);
}

#[test]
fn square_rejects_short_tokens() {
    assert_eq!(square_from_class(&"".to_string()), None);
    assert_eq!(square_from_class(&"5".to_string()), None);
}

#[test]
fn well_formed_class_list_decodes() {
    let p = extract_piece_from_classes("piece wp square52".to_string()).unwrap();
    assert_eq!(p.piece_type, "wp");
    assert_eq!(p.square_x, 5);
    assert_eq!(p.square_y, 2);
    assert!(!p.dragged);
    assert_eq!(p.x_pos_text, None);
    assert_eq!(p.y_pos_text, None);
}

#[test]
fn missing_marker_gives_no_piece() {
    assert_eq!(extract_piece_from_classes("hint wp square52".to_string()), None);
    assert_eq!(extract_piece_from_classes("wp piece square52".to_string()), None);
}

#[test]
fn too_few_tokens_give_no_piece() {
    assert_eq!(extract_piece_from_classes("".to_string()), None);
    assert_eq!(extract_piece_from_classes("piece".to_string()), None);
    assert_eq!(extract_piece_from_classes("piece wp".to_string()), None);
    assert_eq!(extract_piece_from_classes("piece   wp  ".to_string()), None);
}

#[test]
fn non_numeric_square_gives_no_piece() {
    assert_eq!(extract_piece_from_classes("piece wp squarexy".to_string()), None);
    assert_eq!(extract_piece_from_classes("piece wp square-5x".to_string()), None);
}

#[test]
fn drag_flag_sets_dragged() {
    let p = extract_piece_from_classes("piece wp square52 dragging".to_string()).unwrap();
    assert!(p.dragged);
}

#[test]
fn other_fourth_token_leaves_undragged() {
    let p = extract_piece_from_classes("piece wp square52 selected".to_string()).unwrap();
    assert!(!p.dragged);
}

#[test]
fn trailing_tokens_are_ignored() {
    let p = extract_piece_from_classes("piece bk square07 dragging extra more".to_string())
        .unwrap();
    assert_eq!(p.piece_type, "bk");
    assert_eq!(p.square_x, 0);
    assert_eq!(p.square_y, 7);
    assert!(p.dragged);
}

#[test]
fn whitespace_runs_are_one_separator() {
    let p = extract_piece_from_classes("  piece \t wp \n square52 ".to_string()).unwrap();
    assert_eq!(p.piece_type, "wp");
    assert_eq!(p.square_x, 5);
    assert_eq!(p.square_y, 2);
}

#[test]
fn vertical_tab_separates_tokens() {
    // Vertical tab is whitespace: only two tokens remain here.
    assert_eq!(extract_piece_from_classes("piece \u{b} x52".to_string()), None);
    // ... and it splits the square token, leaving non-numeric "bc".
    assert_eq!(extract_piece_from_classes("piece a\u{b}bc x52".to_string()), None);
}

#[test]
fn form_feed_separates_tokens() {
    let p = extract_piece_from_classes("piece\u{c}wp square52".to_string()).unwrap();
    assert_eq!(p.piece_type, "wp");
    assert_eq!(p.square_x, 5);
    assert_eq!(p.square_y, 2);
}

#[test]
fn unicode_spaces_separate_tokens() {
    let p = extract_piece_from_classes("piece\u{a0}wp\u{2003}square52".to_string()).unwrap();
    assert_eq!(p.piece_type, "wp");
    assert_eq!(p.square_x, 5);
    assert_eq!(p.square_y, 2);
}

#[test]
fn drag_flag_followed_by_vertical_tab_still_drags() {
    let a = extract_piece_from_classes("piece wp square52 dragging".to_string()).unwrap();
    let b = extract_piece_from_classes("piece wp square52 dragging\u{b}x".to_string()).unwrap();
    assert!(a.dragged);
    assert!(b.dragged);
    assert_eq!(a, b);
}

#[test]
fn hundreds_of_trailing_tokens_are_ignored() {
    let mut s = String::from("piece wp square52 dragging");
    for _ in 0..200 {
        s.push_str(" extra");
    }
    let p = extract_piece_from_classes(s).unwrap();
    assert_eq!(p.piece_type, "wp");
    assert_eq!(p.square_x, 5);
    assert_eq!(p.square_y, 2);
    assert!(p.dragged);
}

#[test]
fn class_decode_is_idempotent() {
    let a = extract_piece_from_classes("piece wn square34 dragging".to_string());
    let b = extract_piece_from_classes("piece wn square34 dragging".to_string());
    assert_eq!(a, b);
}
