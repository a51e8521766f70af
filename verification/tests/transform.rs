use piece_watch::classlist::extract_piece_from_classes;
use piece_watch::transform::set_piece_position;
use piece_watch::transform::transform_tokens;

fn pos_of(text: &Option<String>) -> f32 {
    match text {
        Some(t) => t.parse().unwrap_or(0.0),
        None => 0.0,
    }
}

#[test]
fn matrix_translation_fields_are_captured() {
    let (x, y) = transform_tokens("matrix(1, 0, 0, 1, 12.5, -3.25)");
    assert_eq!(x.as_deref(), Some("12.5"));
    assert_eq!(y.as_deref(), Some("-3.25"));
    assert_eq!(pos_of(&x), 12.5);
    assert_eq!(pos_of(&y), -3.25);
}

#[test]
fn position_decodes_onto_piece() {
    let p = extract_piece_from_classes("piece wp square52".to_string()).unwrap();
    let p = set_piece_position(p, "matrix(1, 0, 0, 1, 12.5, -3.25)".to_string());
    assert_eq!(pos_of(&p.x_pos_text), 12.5);
    assert_eq!(pos_of(&p.y_pos_text), -3.25);
    assert_eq!(p.piece_type, "wp");
    assert_eq!(p.square_x, 5);
    assert_eq!(p.square_y, 2);
    assert!(!p.dragged);
}

#[test]
fn missing_marker_defaults_position() {
    let p = extract_piece_from_classes("piece wp square52".to_string()).unwrap();
    let q = set_piece_position(p.clone(), "translate(10px, 4px)".to_string());
    assert_eq!(q, p);
    assert_eq!(pos_of(&q.x_pos_text), 0.0);
    assert_eq!(pos_of(&q.y_pos_text), 0.0);
}

#[test]
fn missing_close_paren_defaults_position() {
    let (x, y) = transform_tokens("matrix(1, 0, 0, 1, 12.5, -3.25");
    assert_eq!(x, None);
    assert_eq!(y, None);
}

#[test]
fn too_few_fields_default_position() {
    let (x, y) = transform_tokens("matrix(1, 0)");
    assert_eq!(x, None);
    assert_eq!(y, None);
}

#[test]
fn five_fields_give_x_only() {
    let (x, y) = transform_tokens("matrix(1, 0, 0, 1, 12.5)");
    assert_eq!(x.as_deref(), Some("12.5"));
    assert_eq!(y, None);
    assert_eq!(pos_of(&x), 12.5);
    assert_eq!(pos_of(&y), 0.0);
}

#[test]
fn non_numeric_field_defaults_that_coordinate() {
    let (x, y) = transform_tokens("matrix(1, 0, 0, 1, abc, -3.25)");
    assert_eq!(x.as_deref(), Some("abc"));
    assert_eq!(pos_of(&x), 0.0);
    assert_eq!(pos_of(&y), -3.25);
}

#[test]
fn transform_decode_is_idempotent() {
    let a = transform_tokens("matrix(1, 0, 0, 1, 7.5, 8.25)");
    let b = transform_tokens("matrix(1, 0, 0, 1, 7.5, 8.25)");
    assert_eq!(a, b);
}
