//! Delivery of screen captures.
//!
//! A capture is delivered to the destinations that a configuration lists: a
//! network endpoint takes it in a request, a directory takes it as a file. This
//! library decides what is sent and written, and what came of it; it sends and
//! writes nothing itself. A program around it carries out the actions that the
//! library hands out and hands back what happened.
//!
//! - [`config`] holds the configuration and its destinations.
//! - [`filename`] renders the names of files from templates with date, time,
//!   counter and random tokens.
//! - [`template`] renders the addresses that a destination reports from
//!   templates with queries into its reply.
//! - [`request`] lays out the request that a network destination asks for.
//! - [`upload`] runs a delivery, destination by destination.
//! - [`ipc`] follows a connection of the control plane from request to answer.
//! - [`shared`] keeps the one configuration that all connections share.
//! - [`screenshot`], [`ocr`], [`report`] and [`notification`] hold what
//!   surrounds a capture: what is to be captured, the pixels of it, and what is
//!   said and shown of its delivery.

pub mod config;
pub mod filename;
pub mod ipc;
pub mod notification;
pub mod ocr;
pub mod report;
pub mod request;
pub mod screenshot;
pub mod shared;
pub mod sharex;
pub mod template;
pub mod text;
pub mod upload;
