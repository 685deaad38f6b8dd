//! Running containers as the collector sees them.

use std::collections::HashMap;
use vstd::prelude::*;
use vstd::string::*;

verus! {

/// What the container runtime lists of one running container. The runtime
/// reports each name with a leading `/`.
pub struct ContainerSummary {
    /// The names the runtime knows the container by, the primary one first.
    pub names: Option<Vec<String>>,
    /// The labels attached to the container.
    pub labels: Option<HashMap<String, String>>,
}

/// A container the collector may read from.
pub struct Container {
    /// The primary name, without the runtime's leading `/`.
    pub name: String,
    /// The labels attached to the container.
    pub labels: HashMap<String, String>,
}

/// A name as the runtime reports it: not empty, and starting with a
/// one-byte character that can be cut off.
pub open spec fn reported_name(name: Seq<char>) -> bool {
    name.len() > 0 && (name[0] as u32) < 0x80
}

impl ContainerSummary {
    /// A listed container either has no names at all or a primary name in
    /// the form the runtime reports.
    pub open spec fn well_formed(&self) -> bool {
        match self.names {
            None => true,
            Some(names) => names@.len() > 0 && reported_name(names@[0]@),
        }
    }

    /// Whether [`Container::from_summary`] accepts this listing entry.
    pub fn is_well_formed(&self) -> (ok: bool)
        ensures
            ok == self.well_formed(),
    {
        match &self.names {
            None => true,
            Some(names) => {
                if names.len() == 0 {
                    false
                } else {
                    let first = names[0].as_str();
                    if first.is_empty() {
                        false
                    } else {
                        (first.get_char(0) as u32) < 0x80
                    }
                }
            },
        }
    }

    /// The labels of the listing entry, none if the runtime sent none.
    pub open spec fn label_map(&self) -> Map<String, String> {
        match self.labels {
            None => Map::empty(),
            Some(labels) => labels@,
        }
    }
}

impl Container {
    /// Turns a listing entry into a container: the primary name loses its
    /// leading `/`, the labels are taken over. An entry without names gives
    /// no container.
    pub fn from_summary(container: &ContainerSummary) -> (result: Option<Self>)
        requires
            container.well_formed(),
        ensures
            container.names is None <==> result is None,
            result matches Some(made) ==> {
                &&& made.name@ == container.names->0@[0]@.skip(1)
                &&& made.labels@ == container.label_map()
            },
    {
        match &container.names {
            None => None,
            Some(names) => {
                let reported = names[0].as_str();
                let length: usize = reported.unicode_len();
                let name = String::from_str(reported.substring_char(1, length));
                let labels = match &container.labels {
                    None => HashMap::new(),
                    Some(labels) => labels.clone(),
                };
                Some(Container { name, labels })
            },
        }
    }
}

} // verus!
