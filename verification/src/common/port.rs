use vstd::prelude::*;
use vstd::string::*;

verus! {

/// The kind of data a port carries.
#[derive(Debug, Clone, Copy, PartialEq, Eq, Structural)]
pub enum PortType {
    DataStream,
}

/// Whether a port receives or emits data.
#[derive(Debug, Clone, Copy, PartialEq, Eq, Structural)]
pub enum PortDirection {
    Input,
    Output,
}

/// A connection point of a block.
pub struct Port {
    pub id: String,
    pub name: String,
    pub port_type: PortType,
    pub direction: PortDirection,
    pub required: bool,
    pub multiple: bool,
    pub description: String,
}

impl Port {
    /// A data-stream port.
    pub fn new(
        id: &str,
        name: &str,
        direction: PortDirection,
        required: bool,
        multiple: bool,
        description: &str,
    ) -> (p: Self)
        ensures
            p.id@ == id@,
            p.name@ == name@,
            p.port_type == PortType::DataStream,
            p.direction == direction,
            p.required == required,
            p.multiple == multiple,
            p.description@ == description@,
    {
        Port {
            id: String::from_str(id),
            name: String::from_str(name),
            port_type: PortType::DataStream,
            direction,
            required,
            multiple,
            description: String::from_str(description),
        }
    }
}

} // verus!
