//! Cost bookkeeping for handmade goods: reading supply entries typed by a
//! maker, planning material and time costs, and the decisions that the web
//! backend takes around accounts and stored board state.

pub mod access;
pub mod cost;
pub mod decimal;
pub mod models;
pub mod state;
pub mod supplies;
pub mod text;
