//! A home-automation core: the byte protocol between a controller and a
//! switchable socket, the telemetry datagrams of a thermometer, the request
//! handler that owns a socket's state, and a registry of rooms and devices.
//! Floating-point readings travel as their IEEE-754 bit patterns.

pub mod command;
pub mod handler;
pub mod house;
pub mod response;
pub mod socket;
pub mod telemetry;
