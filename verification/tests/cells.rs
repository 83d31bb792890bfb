use murrelet::cells::{neighbor_ij, CellNeighbor, GridCellNeighbor, HexCellNeighbor, UnitCellLookup};

fn lookup() -> UnitCellLookup<&'static str> {
    UnitCellLookup::new(
        vec![
            ((0, 0, 0), "a"),
            ((1, 0, 0), "b"),
            ((0, 1, 0), "c"),
            ((1, 1, 0), "d"),
            ((1, 1, 1), "upper"),
            ((1, 0, 0), "b2"),
        ],
        (2, 2, 2),
    )
}

#[test]
fn later_cells_replace_earlier_ones() {
    let l = lookup();
    assert_eq!(l.get_ij(1, 0), Some(&"b2"));
    assert_eq!(l.get_ij(1, 1), Some(&"d"));
    assert_eq!(l.get_ij(5, 5), None);
    assert_eq!(l.get_ij_tuple((0, 1)), Some(&"c"));
    assert_eq!(*l.force_get_ij(0, 0), "a");
    assert_eq!(l.get_ij_node(0, 1), Some("c"));
}

#[test]
fn rows_hold_the_first_layer() {
    let rows = lookup().to_vec2d();
    assert_eq!(rows, vec![vec![Some("a"), Some("b2")], vec![Some("c"), Some("d")]]);
}

#[test]
fn grid_neighbors() {
    let l = lookup();
    assert_eq!(l.get_ij_neighbor(0, 0, CellNeighbor::grid_up()), Some(&"c"));
    assert_eq!(l.get_ij_neighbor(0, 0, CellNeighbor::grid_left()), Some(&"b2"));
    assert_eq!(l.get_ij_neighbor(1, 1, CellNeighbor::grid_down_right()), Some(&"a"));
    assert_eq!(neighbor_ij(3, 4, CellNeighbor::Grid(GridCellNeighbor::UpRight)), (2, 5));
}

#[test]
fn hex_neighbors_shift_by_column() {
    assert_eq!(neighbor_ij(2, 2, CellNeighbor::hex_up_left()), (1, 3));
    assert_eq!(neighbor_ij(3, 2, CellNeighbor::hex_up_left()), (2, 2));
    assert_eq!(neighbor_ij(2, 2, CellNeighbor::hex_down_right()), (3, 2));
    assert_eq!(neighbor_ij(3, 2, CellNeighbor::hex_down_right()), (4, 1));
    assert_eq!(neighbor_ij(3, 2, CellNeighbor::Hex(HexCellNeighbor::Down)), (3, 1));
}

#[test]
fn opposite_steps_return() {
    let pairs = [
        (CellNeighbor::hex_up_left(), CellNeighbor::hex_down_right()),
        (CellNeighbor::hex_down_left(), CellNeighbor::hex_up_right()),
        (CellNeighbor::grid_up_left(), CellNeighbor::grid_down_right()),
        (CellNeighbor::grid_left(), CellNeighbor::grid_right()),
    ];
    for (a, b) in pairs {
        for (i, j) in [(2usize, 2usize), (3, 3), (4, 7)] {
            let (x, y) = neighbor_ij(i, j, a);
            assert_eq!(neighbor_ij(x, y, b), (i, j));
        }
    }
}
