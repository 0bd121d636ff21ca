//! A bridge from a JSON description of a late-bound automation call to the
//! host's dynamic-invocation interface.
//!
//! The library holds the three parts of the bridge that make real decisions:
//! decoding the request document into a [`decode::CallDescriptor`]
//! (`decode`), marshaling each dynamically typed property value into the
//! tagged scalar representation the target accepts (`value`), and the
//! invocation driver that orders resolution, property assignment, the method
//! call, the status read and the final release of the automation scope
//! (`driver`). The host's automation runtime itself is a capability the
//! surrounding program supplies: the driver names each call it needs as an
//! [`driver::Action`] and consumes the outcome as an [`driver::Event`].

pub mod decode;
pub mod driver;
pub mod value;
