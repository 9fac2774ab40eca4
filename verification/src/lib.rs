//! A remote-control service core for digital input/output lines ("pins").
//!
//! A request names a pin index and an operation (read the current level, or
//! write a level). The library parses the request's query text into a typed
//! operation, resolves which backend (physical or simulated) owns the index,
//! enforces per-direction whitelists, performs the read or write, and encodes
//! the outcome as a structured response body. The HTTP transport and process
//! startup live outside the library and only hand plain values in and out.
pub mod config;
pub mod execute;
pub mod pins;
pub mod registry;
pub mod request;
pub mod respond;
pub mod text;

pub use config::{parse_gpio_list, PinSet};
pub use execute::{perform_board_operation, perform_pin_io, OperationResult, OperationStatus};
pub use pins::{DiscreteIO, GpioIndex, Level, LevelContainer, PhysicalPin, SimulatedPin};
pub use registry::PinRegistry;
pub use request::{
    pairs_to_operation, process_uri_into_operation, Operation, OperationArgs, RequestError,
};
pub use respond::{generate_json_response, handle, level_to_str, status_to_str};
