//! The decisions of a cathodic protection station controller: what it measures, shows, asks its
//! modem and answers on its serial lines, as functions on plain values.
pub mod bluetooth;
pub mod decimal;
pub mod display;
pub mod dwin;
pub mod encoder;
pub mod fixed;
pub mod gsm;
pub mod power;
pub mod rs485;
pub mod scan;
pub mod sensors;
