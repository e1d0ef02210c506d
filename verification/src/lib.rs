//! A driver for the Intel 82540EP/EM (e1000) network card, verified against a model of the
//! card's registers, descriptor rings and packet buffers.
pub mod consts;
pub mod desc;
pub mod spec;
pub mod device;
pub mod laws;
