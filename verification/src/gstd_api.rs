//! Structures of the HTTP API of the GStreamer Daemon.

use vstd::prelude::*;

verus! {

/// A node of a pipeline.
#[derive(Clone, Debug)]
pub struct Node {
    /// Name of the node.
    pub name: String,
}

/// Description of a property's parameter.
#[derive(Clone, Debug)]
pub struct Param {
    /// What the parameter is.
    pub description: String,
    /// Type of the parameter (`type` in the API).
    pub kind: String,
    /// Access rights to the parameter.
    pub access: String,
}

/// Value of a property: a string or an integer.
#[derive(Clone, Debug)]
pub enum PropertyValue {
    /// A string value.
    String(String),
    /// An integer value.
    Integer(i32),
}

/// A property of an element.
#[derive(Clone, Debug)]
pub struct Property {
    /// Name of the property.
    pub name: String,
    /// Value of the property.
    pub value: PropertyValue,
    /// Parameter of the property.
    pub param: Param,
}

/// Payload of a successful answer: a bus message, a list of properties, or
/// one property.
#[derive(Clone, Debug)]
pub enum ResponseT {
    /// A message read from a pipeline's bus.
    Bus(Bus),
    /// Properties and nodes.
    Properties(Properties),
    /// One property.
    Property(Property),
}

/// Successful answer of the GStreamer Daemon API.
#[derive(Clone, Debug)]
pub struct Response {
    /// Code of the answer.
    pub code: i32,
    /// Description of the code.
    pub description: String,
    /// Payload of the answer.
    pub response: ResponseT,
}

/// Properties and nodes of a resource.
#[derive(Clone, Debug)]
pub struct Properties {
    /// The properties.
    pub properties: Vec<Property>,
    /// The nodes.
    pub nodes: Vec<Node>,
}

/// A message read from a pipeline's bus.
#[derive(Clone, Debug)]
pub struct Bus {
    /// Type of the message (`type` in the API).
    pub kind: String,
    /// Element that sent the message.
    pub source: String,
    /// When the message was sent.
    pub timestamp: String,
    /// Sequence number of the message.
    pub seqnum: i64,
    /// The message.
    pub message: String,
    /// Debug information of the message.
    pub debug: String,
}

} // verus!
