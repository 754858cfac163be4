//! Drives an addressable RGB LED strip from a host machine.
//!
//! The core of the crate is the protocol and driver stack of the firmware:
//! a fixed 64-byte wire protocol ([`messages`]), a bounded single-producer /
//! single-consumer byte queue ([`spsc`]) and a slice-oriented ring buffer
//! ([`ringbuffer`]) that decouple the serial interrupt handler from the main
//! loop through the transport's queue half ([`serial`]), the WS2811 bit
//! encoder with its double-buffered transfer state machine
//! ([`spi_ws2811`]), and the light-state controller ([`lights`]) that
//! applies gamma correction ([`gamma`]) and inactivity decay.
//!
//! Around that core sit the host-side helpers: message builders ([`host`]),
//! capture configuration selection ([`capture`]), black-border bisection
//! ([`border_detection`]), LED zone layout ([`zones`]), pixel sampling
//! ([`sampler`]) and a simple raster image ([`raster_image`]).

pub mod border_detection;
pub mod capture;
pub mod gamma;
pub mod host;
pub mod interface;
pub mod lights;
pub mod messages;
pub mod raster_image;
pub mod rectangle;
pub mod ringbuffer;
pub mod sampler;
pub mod serial;
pub mod spi_ws2811;
pub mod spsc;
pub mod string_buf;
pub mod types;
pub mod zones;
