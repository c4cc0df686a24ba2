//! Call of Cthulhu 7th edition dice roller and character sheet library.

pub mod text;
pub mod locale;
pub mod roller;
pub mod utils;
pub mod character;
pub mod message;
pub mod play;
pub mod table;
pub mod roll_message;
pub mod sheet;
pub mod user_data;
pub mod inventory;
pub mod development;
pub mod suggest;
