//! Host metrics collector: samples disks, network interfaces, thermal sensors
//! and memory/CPU, and encodes the readings as line-protocol text for a
//! time-series database.
//!
//! Each of the four sources ([`disks`], [`networks`], [`sensors`],
//! [`system`]) owns a handle to the machine and turns what the handle holds
//! into measurement lines ([`line`], [`text`]). The aggregator ([`facts`])
//! asks the sources in a fixed order and joins their lines into one batch.
//! The sink ([`influxdb`]) says where and how the batch is posted and judges
//! the outcome. The scheduler ([`scheduler`]) keeps the cadence: collect and
//! send, sleep, and again. The configuration ([`config`]) is read from a text
//! in INI form.
//!
//! The library decides and encodes. Sleeping, reading the configuration file
//! and performing the request are left to the program around it.

pub mod config;
pub mod disks;
pub mod facts;
pub mod influxdb;
pub mod line;
pub mod networks;
pub mod platform;
pub mod scheduler;
pub mod sensors;
pub mod system;
pub mod text;
