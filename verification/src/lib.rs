pub mod config;
pub mod engine;
pub mod grid;
pub mod init;
pub mod present;

pub use config::Config;
pub use engine::count_live_neighbors;
pub use engine::update_grid;
pub use grid::Cell;
pub use grid::Grid;
pub use init::apply_glider;
pub use init::initialize_grid;
pub use present::calculate_grid_stats;
pub use present::cell_color;
pub use present::cell_glyph;
pub use present::render_frame;
pub use present::CellColor;
pub use present::GridStats;
pub use present::RenderCell;
