pub mod unit;
pub mod text;
pub mod sort;
pub mod depth;
pub mod market;
pub mod replay;
pub mod orderflow;
pub mod replay_session;
pub mod drawing;
pub mod drawing_overlay;
pub mod market_gateway;
pub mod indicator;
pub mod trade_speed_indicator;
