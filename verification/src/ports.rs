//! Finding a port by its name.
//!
//! An enumeration of the ports of one direction is given as a list with one
//! entry for each port, in the order of the enumeration: the port's name, or
//! `None` where the name could not be read. A port is then known by its
//! position in that list.

use vstd::prelude::*;
use crate::error::RelayError;

verus! {

/// An enumeration as a mathematical value: for each port its name, if it has
/// a readable one.
pub type PortNames = Seq<Option<Seq<char>>>;

/// The port at `index` exists and carries exactly the name `name`.
pub open spec fn carries_name(ports: PortNames, name: Seq<char>, index: int) -> bool {
    0 <= index < ports.len() && ports[index] == Some(name)
}

/// The port at `index` is the first one that carries the name `name`.
pub open spec fn first_named(ports: PortNames, name: Seq<char>, index: int) -> bool {
    &&& carries_name(ports, name, index)
    &&& forall|earlier: int| 0 <= earlier < index ==> !carries_name(ports, name, earlier)
}

/// The names that could be read, in the order of the enumeration.
pub open spec fn readable_names(ports: PortNames) -> Seq<Seq<char>>
    decreases ports.len(),
{
    if ports.len() == 0 {
        Seq::empty()
    } else {
        let before = readable_names(ports.drop_last());
        match ports.last() {
            Some(name) => before.push(name),
            None => before,
        }
    }
}

/// Finds the port that `name` stands for: the first port in the enumeration
/// whose name is exactly `name`. Names are compared character by character,
/// so neither another case nor a part of a name matches. A port whose name
/// could not be read matches nothing.
///
/// Fails with [`RelayError::PortNotFound`] if and only if no port carries the
/// name.
pub fn get_named_port(ports: &Vec<Option<String>>, name: &str) -> (found: Result<usize, RelayError>)
    ensures
        match found {
            Ok(index) => first_named(ports.deep_view(), name@, index as int),
            Err(error) => {
                &&& error == RelayError::PortNotFound
                &&& forall|index: int| !carries_name(ports.deep_view(), name@, index)
            },
        },
{
    let wanted: String = name.to_owned();
    let mut index: usize = 0;
    while index < ports.len()
        invariant
            index <= ports.len(),
            wanted@ == name@,
            forall|earlier: int|
                0 <= earlier < index ==> !carries_name(ports.deep_view(), name@, earlier),
        decreases ports.len() - index,
    {
        match &ports[index] {
            Some(this_name) => {
                if *this_name == wanted {
                    return Ok(index);
                }
            },
            None => {},
        }
        index += 1;
    }
    Err(RelayError::PortNotFound)
}

/// The names of the ports of one enumeration: every name that could be read,
/// in the order of the enumeration. Ports without a readable name are left
/// out; a name that several ports carry appears once for each of them.
pub fn port_names(ports: &Vec<Option<String>>) -> (names: Vec<String>)
    ensures
        names.deep_view() == readable_names(ports.deep_view()),
{
    let mut names: Vec<String> = Vec::new();
    let mut index: usize = 0;
    while index < ports.len()
        invariant
            index <= ports.len(),
            names.deep_view() == readable_names(ports.deep_view().take(index as int)),
        decreases ports.len() - index,
    {
        proof {
            let seen = ports.deep_view().take(index as int + 1);
            assert(seen.drop_last() == ports.deep_view().take(index as int));
        }
        match &ports[index] {
            Some(name) => {
                names.push(name.clone());
            },
            None => {},
        }
        index += 1;
    }
    assert(ports.deep_view().take(index as int) == ports.deep_view());
    names
}

/// The names of the available ports: those of the input ports, then those of
/// the output ports, each as [`port_names`] gives them.
pub fn list_ports(inputs: &Vec<Option<String>>, outputs: &Vec<Option<String>>) -> (names: (
    Vec<String>,
    Vec<String>,
))
    ensures
        names.0.deep_view() == readable_names(inputs.deep_view()),
        names.1.deep_view() == readable_names(outputs.deep_view()),
{
    (port_names(inputs), port_names(outputs))
}

/// A name stands for at most one port in an enumeration: whoever resolves the
/// same name twice over the same ports gets the same port.
pub proof fn resolution_is_unique(ports: PortNames, name: Seq<char>, first: int, second: int)
    requires
        first_named(ports, name, first),
        first_named(ports, name, second),
    ensures
        first == second,
{
}

/// Two resolutions of the same name give ports of the same name, whatever
/// the two enumerations were.
pub proof fn resolved_ports_share_the_name(
    earlier: PortNames,
    later: PortNames,
    name: Seq<char>,
    first: int,
    second: int,
)
    requires
        first_named(earlier, name, first),
        first_named(later, name, second),
    ensures
        earlier[first] == later[second],
        earlier[first] == Some(name),
{
}

/// Two enumerations that show the same ports list the same names.
pub proof fn same_ports_same_names(earlier: PortNames, later: PortNames)
    requires
        earlier.len() == later.len(),
        forall|index: int| 0 <= index < earlier.len() ==> earlier[index] == later[index],
    ensures
        readable_names(earlier) == readable_names(later),
{
    assert(earlier =~= later);
}

} // verus!
