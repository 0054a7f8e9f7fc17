pub mod card;
pub mod card_laws;
pub mod card_widths;
pub mod cells;
pub mod fact_laws;
pub mod frame_laws;
pub mod image_laws;
pub mod images;
pub mod json;
pub mod kitty_one_shot;
pub mod laws;
pub mod layout_laws;
pub mod live;
pub mod live_laws;
pub mod measures;
pub mod one_shot;
pub mod raster;
pub mod row_laws;
pub mod screen_laws;
pub mod sending_laws;
pub mod terminal;
pub mod text;
pub mod theme;
pub mod tui;
pub mod value_laws;
pub mod values;
pub mod word_laws;
