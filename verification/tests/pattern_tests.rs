use batch2d::shapes::{fan_indices, line_quad_indices, quad_indices, rect_outline_indices, ring_indices};

#[test]
fn quad_pattern() {
    assert_eq!(quad_indices(), vec![0, 1, 2, 0, 2, 3]);
}

#[test]
fn line_quad_pattern() {
    assert_eq!(line_quad_indices(), vec![0, 1, 2, 2, 1, 3]);
}

#[test]
fn rect_outline_pattern() {
    assert_eq!(
        rect_outline_indices(),
        vec![0, 1, 4, 1, 4, 5, 1, 5, 6, 1, 2, 6, 3, 7, 2, 2, 7, 6, 0, 4, 3, 3, 4, 7]
    );
}

#[test]
fn fan_pattern() {
    assert_eq!(fan_indices(0), Vec::<u16>::new());
    assert_eq!(fan_indices(1), vec![0, 1, 2]);
    assert_eq!(fan_indices(3), vec![0, 1, 2, 0, 2, 3, 0, 3, 4]);
    // Every index addresses one of the `sides + 2` fan vertices.
    let idxs = fan_indices(20);
    assert_eq!(idxs.len(), 60);
    assert!(idxs.iter().all(|&j| j < 22));
}

#[test]
fn ring_pattern() {
    assert_eq!(
        ring_indices(3),
        vec![0, 1, 3, 3, 1, 4, 1, 2, 4, 4, 2, 5, 2, 0, 5, 5, 0, 3]
    );
    // Every index addresses one of the `2 n` ring vertices.
    let idxs = ring_indices(8);
    assert_eq!(idxs.len(), 48);
    assert!(idxs.iter().all(|&j| j < 16));
}
