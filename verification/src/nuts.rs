//! The protocol's numbered parts.

pub mod nut00;
pub mod nut01;
pub mod nut02;
pub mod nut04;
pub mod nut05;
pub mod nut07;
pub mod nut11;
pub mod nut12;
pub mod nut13;
pub mod nut17;
pub mod nut20;
pub mod nutxx;
