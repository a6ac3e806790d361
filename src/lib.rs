//! Daily ingestion of per-minute energy readings from a home EV charger:
//! the unit conversion, the time-of-use tariff, the shape of the two
//! requests to the vendor's cloud, and the batch written to the time-series
//! store.
pub mod util;
pub mod zappi;
