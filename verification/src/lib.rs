//! Telemetry sampling core for a hardware heads-up display.
//!
//! The library owns the sampling and aggregation logic of the monitor:
//! fixed-capacity rolling windows that hold the recent history of each
//! metric stream, a dual-cadence poll scheduler (a fast path for CPU and
//! memory, a slow path for the GPU, whose readings come from an external
//! query tool), parsing of that tool's comma-separated output, percentage
//! computation, and the temperature-sensor selection heuristic.
//!
//! All quantities are carried as plain integers: times in milliseconds,
//! percentages in hundredths of a percent (centi-percent), sensor
//! temperatures in hundredths of a degree Celsius, the GPU temperature in
//! whole degrees (the query tool reports it as an integer), VRAM sizes in
//! MB. The rendering layer converts to and from these units at the
//! boundary.

pub mod buffer;
pub mod gpu;
pub mod metrics;
pub mod num;
pub mod sensors;
pub mod text;
pub mod timer;
pub mod window;
