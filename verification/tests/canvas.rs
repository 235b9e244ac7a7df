use snotes::canvas::{active_layer, drawing_order, visible_strokes, LayerKey};

fn layer(visible: bool, locked: bool, order: i32) -> LayerKey {
    LayerKey { visible, locked, order }
}

#[test]
fn active_layer_is_topmost_editable() {
    let layers = vec![layer(true, false, 0), layer(true, false, 1)];
    assert_eq!(active_layer(&layers), Some(1));
    let layers = vec![layer(true, false, 2), layer(true, true, 5), layer(false, false, 9), layer(true, false, 2)];
    assert_eq!(active_layer(&layers), Some(3));
    let layers = vec![layer(false, false, 0), layer(true, true, 1)];
    assert_eq!(active_layer(&layers), None);
    assert_eq!(active_layer(&Vec::new()), None);
}

#[test]
fn layers_drawn_bottom_up() {
    let layers = vec![layer(true, false, 3), layer(false, false, 0), layer(true, true, 1), layer(true, false, 1)];
    assert_eq!(drawing_order(&layers), vec![2, 3, 0]);
}

#[test]
fn strokes_drawn_layer_by_layer() {
    let layers = vec![layer(true, false, 1), layer(true, false, 0), layer(false, false, 2)];
    let layer_strokes = vec![vec![10u128, 11], vec![12u128, 99], vec![13u128]];
    let stroke_ids = vec![11u128, 10, 12, 13, 10];
    assert_eq!(visible_strokes(&layers, &layer_strokes, &stroke_ids), vec![2, 1, 0]);
}
