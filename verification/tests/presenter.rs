use life_torus::config::Config;
use life_torus::grid::Cell;
use life_torus::grid::Grid;
use life_torus::present::cell_color;
use life_torus::present::cell_glyph;
use life_torus::present::render_frame;
use life_torus::present::CellColor;

fn alive(age: u8) -> Cell {
    Cell { alive: true, age }
}

#[test]
fn dead_cells_are_grey_regardless_of_age() {
    assert_eq!(cell_color(&Cell { alive: false, age: 0 }), CellColor::Grey);
    assert_eq!(cell_color(&Cell { alive: false, age: 200 }), CellColor::Grey);
}

#[test]
fn color_buckets_follow_the_age_table() {
    assert_eq!(cell_color(&alive(0)), CellColor::White);
    assert_eq!(cell_color(&alive(1)), CellColor::White);
    assert_eq!(cell_color(&alive(2)), CellColor::Yellow);
    assert_eq!(cell_color(&alive(3)), CellColor::Yellow);
    assert_eq!(cell_color(&alive(4)), CellColor::Green);
    assert_eq!(cell_color(&alive(6)), CellColor::Green);
    assert_eq!(cell_color(&alive(7)), CellColor::Cyan);
    assert_eq!(cell_color(&alive(10)), CellColor::Cyan);
    assert_eq!(cell_color(&alive(11)), CellColor::Blue);
    assert_eq!(cell_color(&alive(15)), CellColor::Blue);
    assert_eq!(cell_color(&alive(16)), CellColor::Magenta);
    assert_eq!(cell_color(&alive(255)), CellColor::Magenta);
}

#[test]
fn glyphs_are_block_and_space() {
    assert_eq!(cell_glyph(&alive(3)), '\u{25a0}');
    assert_eq!(cell_glyph(&Cell { alive: false, age: 0 }), ' ');
}

#[test]
fn render_frame_lists_cells_in_row_major_order() {
    let mut g = Grid::new_dead(3, 2);
    g.force_alive(1, 0);
    g.cells[1][2] = Cell { alive: true, age: 5 };
    let ops = render_frame(&g);
    assert_eq!(ops.len(), 6);
    for (k, op) in ops.iter().enumerate() {
        assert_eq!(op.x, k % 3);
        assert_eq!(op.y, k / 3);
    }
    assert_eq!(ops[1].color, CellColor::White);
    assert_eq!(ops[1].glyph, '\u{25a0}');
    assert_eq!(ops[5].color, CellColor::Green);
    assert_eq!(ops[5].glyph, '\u{25a0}');
    assert_eq!(ops[0].color, CellColor::Grey);
    assert_eq!(ops[0].glyph, ' ');
}

#[test]
fn default_config_matches_the_classic_parameters() {
    let cfg = Config::default();
    assert_eq!(cfg.width, 80);
    assert_eq!(cfg.height, 30);
    assert_eq!(cfg.alive_numerator, 3);
    assert_eq!(cfg.alive_denominator, 10);
    assert_eq!(cfg.generations_per_second, 10);
    assert!(cfg.well_formed());
    assert_eq!(cfg.frame_interval_ms(), 100);
}

#[test]
fn malformed_configs_are_rejected() {
    let mut cfg = Config::default();
    cfg.alive_denominator = 0;
    assert!(!cfg.well_formed());
    let mut cfg = Config::default();
    cfg.alive_numerator = 11;
    assert!(!cfg.well_formed());
    let mut cfg = Config::default();
    cfg.width = 2;
    assert!(!cfg.well_formed());
    let mut cfg = Config::default();
    cfg.generations_per_second = 0;
    assert!(!cfg.well_formed());
}

#[test]
fn malformed_grids_are_rejected() {
    let g = Grid { width: 3, height: 2, cells: vec![vec![Cell { alive: false, age: 0 }; 3]] };
    assert!(!g.well_formed());
    let g = Grid::new_dead(3, 2);
    assert!(g.well_formed());
}
