use rpeg::blocks::{collect_blocks, spread_blocks, Block2x2};
use rpeg::grid::Grid;

fn numbered_grid(width: usize, height: usize) -> Grid<u32> {
    let mut data = Vec::new();
    for i in 0..width * height {
        data.push(i as u32);
    }
    Grid::from_row_major(width, height, data).unwrap()
}

#[test]
fn collect_blocks_gathers_2x2_anchors() {
    // A 4x2 grid:  0  1  2  3
    //              4  5  6  7
    let g = numbered_grid(4, 2);
    let blocks = collect_blocks(&g);
    assert_eq!(blocks.width, 2);
    assert_eq!(blocks.height, 1);
    assert_eq!(*blocks.get(0, 0), Block2x2 { p1: 0, p2: 1, p3: 4, p4: 5 });
    assert_eq!(*blocks.get(1, 0), Block2x2 { p1: 2, p2: 3, p3: 6, p4: 7 });
}

#[test]
fn collect_blocks_is_row_major_over_blocks() {
    let g = numbered_grid(4, 4);
    let blocks = collect_blocks(&g);
    // The flat block order walks block rows first, exactly the codeword
    // order of the wire format.
    assert_eq!(blocks.data[0].p1, 0);
    assert_eq!(blocks.data[1].p1, 2);
    assert_eq!(blocks.data[2].p1, 8);
    assert_eq!(blocks.data[3].p1, 10);
}

#[test]
fn spread_blocks_broadcasts_corners() {
    let blocks = Grid::from_row_major(
        1,
        1,
        vec![Block2x2 { p1: 10u32, p2: 20, p3: 30, p4: 40 }],
    )
    .unwrap();
    let g = spread_blocks(&blocks);
    assert_eq!(g.width, 2);
    assert_eq!(g.height, 2);
    assert_eq!(*g.get(0, 0), 10);
    assert_eq!(*g.get(1, 0), 20);
    assert_eq!(*g.get(0, 1), 30);
    assert_eq!(*g.get(1, 1), 40);
}

#[test]
fn block_view_roundtrip_restores_grid() {
    let g = numbered_grid(6, 4);
    let back = spread_blocks(&collect_blocks(&g));
    assert_eq!(back, g);
}
