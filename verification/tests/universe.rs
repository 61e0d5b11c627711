use game_of_life::cell::Cell;
use game_of_life::config::{EdgeRule, UniverseConfig};
use game_of_life::entropy::{cell_from_byte, cells_from_bytes};
use game_of_life::rle::DecodeError;
use game_of_life::sizer::{count_across, resolve_size, GridSize, RowColCount};
use game_of_life::universe::{shift, BuildError, Universe};

const D: Cell = Cell::Dead;
const A: Cell = Cell::Alive;

fn pattern(body: &str) -> Vec<u8> {
    format!("#C a pattern\nx = 003, y = 003\n{}", body).into_bytes()
}

/// A universe of the given size and edge rule whose cells are alive where `bytes` is odd.
fn universe_of(width: u32, height: u32, edge: EdgeRule, bytes: &[u8]) -> Universe {
    let mut universe = UniverseConfig::new()
        .set_edge_rule(edge)
        .set_override_size(width, height)
        .construct();
    universe.resize(1000, 1000);
    assert_eq!(universe.width(), width);
    assert_eq!(universe.height(), height);
    assert_eq!(bytes.len(), (width * height) as usize);
    universe.seed(bytes);
    universe
}

fn cells_at(width: u32, height: u32, alive: &[(u32, u32)]) -> Vec<u8> {
    let mut bytes = vec![0u8; (width * height) as usize];
    for &(row, col) in alive {
        bytes[(row * width + col) as usize] = 1;
    }
    bytes
}

#[test]
fn tick_on_dead_grid_stays_dead() {
    for edge in [EdgeRule::Wrap, EdgeRule::Truncate] {
        for (w, h) in [(0u32, 0u32), (1, 1), (1, 5), (5, 1), (2, 2), (3, 7), (8, 8)] {
            let mut universe = universe_of(w, h, edge, &vec![0u8; (w * h) as usize]);
            universe.tick();
            assert_eq!(universe.cells().len(), (w * h) as usize);
            assert!(universe.cells().iter().all(|&cell| cell == D));
        }
    }
}

#[test]
fn blinker_oscillates_with_period_two() {
    for (w, h) in [(5u32, 5u32), (6, 7), (9, 5)] {
        let horizontal = cells_from_bytes(&cells_at(w, h, &[(2, 1), (2, 2), (2, 3)]));
        let vertical = cells_from_bytes(&cells_at(w, h, &[(1, 2), (2, 2), (3, 2)]));
        let mut universe =
            universe_of(w, h, EdgeRule::Wrap, &cells_at(w, h, &[(2, 1), (2, 2), (2, 3)]));
        assert_eq!(universe.cells(), &horizontal[..]);
        universe.tick();
        assert_eq!(universe.cells(), &vertical[..]);
        universe.tick();
        assert_eq!(universe.cells(), &horizontal[..]);
    }
}

#[test]
fn blinker_from_pattern_text() {
    let mut universe = Universe::from_pattern(5, 5, &pattern("5b$5b$b3o$5b$5b!")).unwrap();
    assert_eq!(universe.width(), 5);
    assert_eq!(universe.height(), 5);
    universe.tick();
    let vertical = cells_from_bytes(&cells_at(5, 5, &[(1, 2), (2, 2), (3, 2)]));
    assert_eq!(universe.cells(), &vertical[..]);
}

#[test]
fn corner_cell_is_a_neighbor_across_the_edges_under_wrap() {
    for (n, m) in [(3u32, 3u32), (4, 6), (10, 3)] {
        let universe = universe_of(m, n, EdgeRule::Wrap, &cells_at(m, n, &[(0, 0)]));
        assert_eq!(universe.living_neighbor_count(n - 1, m - 1), 1);
        assert_eq!(universe.living_neighbor_count(n - 1, 0), 1);
        assert_eq!(universe.living_neighbor_count(0, m - 1), 1);
        assert_eq!(universe.living_neighbor_count(0, 0), 0);
        assert_eq!(universe.neighbor(n - 1, m - 1, 1, 1), 1);
    }
}

#[test]
fn corner_cell_has_no_neighbors_across_the_edges_under_truncate() {
    let universe = universe_of(6, 4, EdgeRule::Truncate, &cells_at(6, 4, &[(0, 0)]));
    assert_eq!(universe.living_neighbor_count(3, 5), 0);
    assert_eq!(universe.living_neighbor_count(3, 0), 0);
    assert_eq!(universe.living_neighbor_count(0, 5), 0);
    assert_eq!(universe.living_neighbor_count(0, 1), 1);
    assert_eq!(universe.living_neighbor_count(1, 1), 1);
}

#[test]
fn full_grid_counts_eight_under_wrap_and_fewer_at_truncated_edges() {
    let wrap = universe_of(3, 3, EdgeRule::Wrap, &[1u8; 9]);
    let truncate = universe_of(3, 3, EdgeRule::Truncate, &[1u8; 9]);
    for row in 0..3 {
        for col in 0..3 {
            assert_eq!(wrap.living_neighbor_count(row, col), 8);
        }
    }
    assert_eq!(truncate.living_neighbor_count(0, 0), 3);
    assert_eq!(truncate.living_neighbor_count(0, 1), 5);
    assert_eq!(truncate.living_neighbor_count(1, 1), 8);
}

#[test]
fn rule_of_the_generation_step() {
    // a block is stable; a lone cell dies; three in an L give birth to the fourth
    let block = cells_at(4, 4, &[(1, 1), (1, 2), (2, 1), (2, 2)]);
    let mut universe = universe_of(4, 4, EdgeRule::Truncate, &block);
    universe.tick();
    assert_eq!(universe.cells(), &cells_from_bytes(&block)[..]);

    let mut universe = universe_of(4, 4, EdgeRule::Truncate, &cells_at(4, 4, &[(1, 1)]));
    universe.tick();
    assert!(universe.cells().iter().all(|&cell| cell == D));

    let mut universe =
        universe_of(4, 4, EdgeRule::Truncate, &cells_at(4, 4, &[(1, 1), (1, 2), (2, 1)]));
    universe.tick();
    assert_eq!(universe.cells(), &cells_from_bytes(&block)[..]);

    // a living cell with four living neighbours dies
    let plus = cells_at(5, 5, &[(1, 2), (2, 1), (2, 2), (2, 3), (3, 2)]);
    let mut universe = universe_of(5, 5, EdgeRule::Truncate, &plus);
    universe.tick();
    assert_eq!(universe.cells()[12], D);
    assert_eq!(universe.cells()[6], A);
}

#[test]
fn shift_wraps_or_stops_at_the_edge() {
    assert_eq!(shift(EdgeRule::Wrap, 0, -1, 5), Some(4));
    assert_eq!(shift(EdgeRule::Wrap, 4, 1, 5), Some(0));
    assert_eq!(shift(EdgeRule::Wrap, 2, 1, 5), Some(3));
    assert_eq!(shift(EdgeRule::Wrap, 0, 1, 1), Some(0));
    assert_eq!(shift(EdgeRule::Truncate, 0, -1, 5), None);
    assert_eq!(shift(EdgeRule::Truncate, 4, 1, 5), None);
    assert_eq!(shift(EdgeRule::Truncate, 4, 0, 5), Some(4));
}

#[test]
fn render_writes_one_glyph_per_cell_and_one_line_per_row() {
    let universe = universe_of(2, 3, EdgeRule::Wrap, &[0, 1, 1, 1, 0, 0]);
    assert_eq!(universe.render(), "\u{25fb}\u{25fc}\n\u{25fc}\u{25fc}\n\u{25fb}\u{25fb}\n");
    assert_eq!(Universe::new().render(), "");
}

#[test]
fn get_index_is_row_major() {
    let universe = universe_of(7, 3, EdgeRule::Wrap, &[0u8; 21]);
    assert_eq!(universe.get_index(0, 0), 0);
    assert_eq!(universe.get_index(1, 0), 7);
    assert_eq!(universe.get_index(2, 6), 20);
}

#[test]
fn new_universe_is_empty() {
    let universe = Universe::new();
    assert_eq!(universe.width(), 0);
    assert_eq!(universe.height(), 0);
    assert!(universe.cells().is_empty());
    assert_eq!(universe.config().get_padding(), 0);
}

#[test]
fn override_size_with_padding_resolves_to_fourteen() {
    let mut universe = UniverseConfig::new()
        .set_override_size(10, 10)
        .set_padding(2)
        .construct();
    assert!(universe.build(300, 200).is_ok());
    assert_eq!(universe.width(), 14);
    assert_eq!(universe.height(), 14);
    assert_eq!(universe.cells().len(), 196);

    let size = resolve_size(2, Some((10, 10)), RowColCount { rows: 100, cols: 100 });
    assert_eq!(size.width, 14);
    assert_eq!(size.height, 14);
}

#[test]
fn window_is_clamped_to_the_capacity_and_centred() {
    let size = resolve_size(2, Some((10, 10)), RowColCount { rows: 8, cols: 20 });
    assert_eq!(
        size,
        GridSize {
            width: 14,
            height: 14,
            visible_columns: 14,
            visible_rows: 8,
            visible_row_start_position: 3,
            visible_column_start_position: 0,
        }
    );
}

#[test]
fn without_override_the_grid_is_the_capacity_with_padding() {
    let size = resolve_size(3, None, RowColCount { rows: 8, cols: 20 });
    assert_eq!(
        size,
        GridSize {
            width: 26,
            height: 14,
            visible_columns: 20,
            visible_rows: 8,
            visible_row_start_position: 3,
            visible_column_start_position: 3,
        }
    );
}

#[test]
fn count_across_rounds_down_or_up() {
    assert_eq!(count_across(100, 4, 10, true), 7);
    assert_eq!(count_across(100, 4, 10, false), 8);
    assert_eq!(count_across(94, 4, 10, true), 7);
    assert_eq!(count_across(94, 4, 10, false), 7);
    assert_eq!(count_across(0, 0, 1, false), 0);
    assert_eq!(count_across(u32::MAX, 0, 1, false), u32::MAX);
}

#[test]
fn calculate_visible_grid_size_measures_the_canvas() {
    let universe = Universe::new();
    let count = universe.calculate_visible_grid_size(100, 52);
    assert_eq!(count, RowColCount { rows: 4, cols: 8 });
}

#[test]
fn visibility_and_translation_follow_the_window() {
    let mut universe = UniverseConfig::new().set_override_size(20, 20).construct();
    // a canvas of 66 by 38 pixels shows 5 columns and 3 rows
    universe.resize(66, 38);
    let size = universe.grid_size();
    assert_eq!(size.visible_columns, 5);
    assert_eq!(size.visible_rows, 3);
    assert_eq!(size.visible_row_start_position, 8);
    assert_eq!(size.visible_column_start_position, 7);
    assert!(universe.is_visible(8, 7));
    assert!(universe.is_visible(10, 11));
    assert!(!universe.is_visible(11, 11));
    assert!(!universe.is_visible(10, 12));
    assert!(!universe.is_visible(7, 7));
    assert_eq!(universe.translate_to_visible_row_col(10, 11), (2, 4));
}

#[test]
fn build_fills_the_grid_at_random() {
    let mut universe = UniverseConfig::new().set_override_size(32, 32).construct();
    assert!(universe.build(100, 100).is_ok());
    assert_eq!(universe.cells().len(), 1024);
    assert!(universe.cells().iter().any(|&cell| cell == A));
    assert!(universe.cells().iter().any(|&cell| cell == D));
}

#[test]
fn seed_maps_even_bytes_to_dead_and_odd_bytes_to_alive() {
    assert_eq!(cell_from_byte(0), D);
    assert_eq!(cell_from_byte(1), A);
    assert_eq!(cell_from_byte(254), D);
    assert_eq!(cell_from_byte(255), A);
    assert_eq!(cells_from_bytes(&[2, 3, 4, 7]), vec![D, A, D, A]);
    let universe = universe_of(2, 2, EdgeRule::Wrap, &[9, 8, 7, 6]);
    assert_eq!(universe.cells(), &[A, D, A, D][..]);
}

#[test]
fn load_pattern_fills_the_grid_or_leaves_it() {
    let mut universe = universe_of(3, 2, EdgeRule::Wrap, &[1u8; 6]);
    assert_eq!(
        universe.load_pattern(b"#C bad\nx = abc, y = 003\nbo!"),
        Err(DecodeError::MalformedHeader)
    );
    assert_eq!(universe.cells(), &[A; 6][..]);
    assert_eq!(universe.load_pattern(&pattern("bo$o!")), Ok(()));
    assert_eq!(universe.cells(), &[D, A, D, A, D, D][..]);
}

#[test]
fn from_pattern_refuses_a_malformed_text() {
    assert!(matches!(
        Universe::from_pattern(3, 3, b"x = abc"),
        Err(DecodeError::MalformedHeader)
    ));
    assert!(matches!(
        Universe::from_pattern(3, 3, &pattern("2 3o!")),
        Err(DecodeError::InvalidToken)
    ));
}

#[test]
fn cell_as_number() {
    assert_eq!(D.as_u8(), 0);
    assert_eq!(A.as_u8(), 1);
}

#[test]
fn seed_with_reports_a_failed_random_source_and_keeps_the_cells() {
    let mut universe = universe_of(2, 2, EdgeRule::Wrap, &[1, 1, 0, 1]);
    assert_eq!(
        universe.seed_with(Err(getrandom::Error::UNSUPPORTED), &[0, 0, 0, 0]),
        Err(BuildError::EntropyUnavailable)
    );
    assert_eq!(universe.cells(), &[A, A, D, A][..]);
    assert_eq!(universe.seed_with(Ok(()), &[0, 1, 2, 3]), Ok(()));
    assert_eq!(universe.cells(), &[D, A, D, A][..]);
}

#[test]
fn populate_follows_the_configured_input() {
    let mut universe = UniverseConfig::new()
        .set_rle_input("#C glider\nx = 003, y = 003\nbo$2bo$3o!")
        .set_override_size(3, 3)
        .construct();
    assert!(universe.can_build(100, 100));
    assert_eq!(universe.populate(100, 100), Ok(()));
    assert_eq!(universe.cells(), &[D, A, D, D, D, A, A, A, A][..]);

    let mut universe = UniverseConfig::new().set_override_size(3, 3).construct();
    assert_eq!(
        universe.populate(100, 100),
        Err(BuildError::Pattern(DecodeError::MalformedHeader))
    );
    assert_eq!(universe.cells(), &[D; 9][..]);

    let mut universe = UniverseConfig::new()
        .set_random_input()
        .set_override_size(16, 16)
        .construct();
    assert_eq!(universe.populate(100, 100), Ok(()));
    assert_eq!(universe.cells().len(), 256);
    assert!(universe.cells().iter().any(|&cell| cell == A));
}

#[test]
fn can_build_refuses_what_does_not_fit() {
    let universe = UniverseConfig::new().construct();
    assert!(universe.can_build(640, 480));
    assert!(!universe.can_build(u32::MAX, 480));
    let universe = UniverseConfig::new()
        .set_override_size(u32::MAX, 1)
        .set_padding(1)
        .construct();
    assert!(!universe.can_build(640, 480));
    let mut config = UniverseConfig::new().set_cell_size(0);
    config.border_width = 0;
    assert!(!config.construct().can_build(640, 480));
}

#[test]
fn build_without_override_takes_the_capacity_of_the_canvas() {
    let mut universe = UniverseConfig::new().set_padding(1).construct();
    // 66 by 38 pixels show 5 columns and 3 rows
    assert!(universe.build(66, 38).is_ok());
    assert_eq!(universe.width(), 7);
    assert_eq!(universe.height(), 5);
    assert_eq!(universe.cells().len(), 35);
    assert!(universe.is_visible(1, 1));
    assert!(!universe.is_visible(0, 0));
}
