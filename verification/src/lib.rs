//! Normalisation of rtl_433 sensor messages.
//!
//! One line of text holds one JSON object. The library reads the members it
//! knows, coerces the loosely typed ones (timestamps, yes/no flags) and
//! renders a short report for each message.

pub mod binary64;
pub mod decimal;
pub mod json;
pub mod line;
pub mod message;
pub mod report;
pub mod text;
pub mod timestamp;
pub mod yes_no;
