//! A dataflow network: actor instances, the FIFO edges between their ports and
//! where each actor class is defined.
use vstd::prelude::*;

verus! {

/// The network read from an XDF description.
#[derive(Debug, Clone)]
pub struct Network {
    pub name: String,
    pub instances: Vec<Instance>,
    pub edges: Vec<Edge>,
    pub class_paths: Vec<ClassPath>,
}

/// One actor instance of the network.
#[derive(Debug, Clone)]
pub struct Instance {
    pub id: String,
    pub class_name: String,
    pub parameters: Vec<Param>,
}

/// A parameter value given to an instance.
#[derive(Debug, Clone)]
pub struct Param {
    pub key: String,
    pub value: String,
}

/// A FIFO from one instance's output port to another's input port.
#[derive(Debug, Clone)]
pub struct Edge {
    pub src_id: String,
    pub src_port: String,
    pub dst_id: String,
    pub dst_port: String,
    pub fifo_size: u32,
}

/// Where the source of an actor class lives.
#[derive(Debug, Clone)]
pub struct ClassPath {
    pub class_name: String,
    pub path: String,
}

} // verus!
