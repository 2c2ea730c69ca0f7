//! Handlers of the market data types that clients subscribe to.
pub mod cbbo_v1;
pub mod helper;
pub mod market_depth_v1;
pub mod outcome;
pub mod rest_cost_calculator_v1;
