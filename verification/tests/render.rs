use pgb1::render::ScaledRenderer;
use pgb1::snake::Position;

#[test]
fn four_by_four_block_for_logical_pixel() {
    // A 128 by 64 surface scaled by 4 on each axis.
    let r = ScaledRenderer::new(128, 64, 4, 4);
    let b = r.block(Position { x: 2, y: 3 });
    assert_eq!(b.x, 8);
    assert_eq!(b.y, 12);
    assert_eq!(b.width, 4);
    assert_eq!(b.height, 4);
    // The filled rectangle runs from (8, 12) to (11, 15) inclusive.
    assert_eq!(b.x + b.width - 1, 11);
    assert_eq!(b.y + b.height - 1, 15);
}

#[test]
fn reports_logical_dimensions() {
    let r = ScaledRenderer::new(128, 64, 4, 4);
    assert_eq!(r.size(), (32, 16));
    let unit = ScaledRenderer::new(40, 20, 1, 1);
    assert_eq!(unit.size(), (40, 20));
}

#[test]
fn unit_scale_is_identity() {
    let r = ScaledRenderer::new(40, 20, 1, 1);
    let b = r.block(Position { x: 17, y: 9 });
    assert_eq!((b.x, b.y, b.width, b.height), (17, 9, 1, 1));
}

#[test]
fn blocks_map_a_whole_frame() {
    let r = ScaledRenderer::new(128, 64, 4, 4);
    let cells = vec![
        Position { x: 0, y: 0 },
        Position { x: 2, y: 3 },
        Position { x: 31, y: 15 },
    ];
    let blocks = r.blocks(&cells);
    assert_eq!(blocks.len(), 3);
    assert_eq!((blocks[0].x, blocks[0].y), (0, 0));
    assert_eq!((blocks[1].x, blocks[1].y), (8, 12));
    assert_eq!((blocks[2].x, blocks[2].y), (124, 60));
    for b in blocks {
        assert_eq!((b.width, b.height), (4, 4));
    }
}
