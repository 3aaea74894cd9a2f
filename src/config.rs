//! Configuration of a core, its node and its services.
use vstd::prelude::*;
use std::collections::HashMap;
use crate::operation::Version;

verus! {

/// Builds a core configuration from its text.
pub struct ConfigBuilder {
    config_string: String,
}

impl ConfigBuilder {
    pub closed spec fn text(&self) -> Seq<char> {
        self.config_string@
    }

    pub fn from_string(string: String) -> (r: ConfigBuilder)
        ensures
            r.text() == string@,
    {
        ConfigBuilder { config_string: string }
    }

    /// The configuration: no setting is read from the text yet, so every name
    /// is empty and every table is empty.
    pub fn build(&mut self) -> (r: CoreConfig)
        ensures
            r.is_blank(),
            final(self).text() == old(self).text(),
    {
        CoreConfig {
            name: String::new(),
            node_config: NodeConfig {
                name: String::new(),
                service_config: ServiceConfig {
                    name: String::new(),
                    operation_config: HashMap::new(),
                    parameters: HashMap::new(),
                },
            },
        }
    }
}

/// Configuration of a core.
pub struct CoreConfig {
    name: String,
    node_config: NodeConfig,
}

impl CoreConfig {
    /// Every name empty and every table empty.
    pub closed spec fn is_blank(&self) -> bool {
        &&& self.name@.len() == 0
        &&& self.node_config.name@.len() == 0
        &&& self.node_config.service_config.name@.len() == 0
        &&& self.node_config.service_config.operation_config@ == Map::<
            String,
            OperationConfig,
        >::empty()
        &&& self.node_config.service_config.parameters@ == Map::<String, String>::empty()
    }
}

/// Configuration of a node.
pub struct NodeConfig {
    name: String,
    service_config: ServiceConfig,
}

/// What a service factory receives: a name, its operations by name, and
/// string parameters.
pub struct ServiceConfig {
    pub name: String,
    pub operation_config: HashMap<String, OperationConfig>,
    pub parameters: HashMap<String, String>,
}

/// Configuration of one operation.
pub struct OperationConfig {
    name: String,
    version: Version,
    description: String,
}

} // verus!
