pub mod window;
pub mod speed;
pub mod book_consumption;
pub mod book_flow;
pub mod advanced;
pub mod mbo;
pub mod pipeline;

pub use speed::{
    BookConsumptionEvent, BookSide, BookSpeedEngine, BookSpeedSnapshot, SpeedConfig,
    TradeSpeedEngine, TradeSpeedSnapshot,
};
pub use window::SpeedWindow;
