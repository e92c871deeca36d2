use midi_spreader::error::RelayError;
use midi_spreader::ports::{get_named_port, list_ports, port_names};

fn named(names: &[Option<&str>]) -> Vec<Option<String>> {
    names.iter().map(|name| name.map(|text| text.to_string())).collect()
}

#[test]
fn missing_port_is_not_found() {
    let ports = named(&[Some("IAC Driver Bus 1"), Some("Network Network Session 1")]);
    assert_eq!(get_named_port(&ports, "Nonexistent Port"), Err(RelayError::PortNotFound));
}

#[test]
fn nothing_is_found_among_no_ports() {
    assert_eq!(get_named_port(&Vec::new(), "IAC Driver Bus 1"), Err(RelayError::PortNotFound));
    assert_eq!(get_named_port(&Vec::new(), ""), Err(RelayError::PortNotFound));
}

#[test]
fn port_is_found_by_its_exact_name() {
    let ports = named(&[Some("Midi Through"), Some("IAC Driver Bus 1"), Some("Synth")]);
    assert_eq!(get_named_port(&ports, "Midi Through"), Ok(0));
    assert_eq!(get_named_port(&ports, "IAC Driver Bus 1"), Ok(1));
    assert_eq!(get_named_port(&ports, "Synth"), Ok(2));
}

#[test]
fn name_must_match_in_case() {
    let ports = named(&[Some("IAC Driver Bus 1")]);
    assert_eq!(get_named_port(&ports, "iac driver bus 1"), Err(RelayError::PortNotFound));
    assert_eq!(get_named_port(&ports, "IAC DRIVER BUS 1"), Err(RelayError::PortNotFound));
}

#[test]
fn part_of_a_name_does_not_match() {
    let ports = named(&[Some("IAC Driver Bus 1")]);
    assert_eq!(get_named_port(&ports, "IAC Driver"), Err(RelayError::PortNotFound));
    assert_eq!(get_named_port(&ports, "IAC Driver Bus 12"), Err(RelayError::PortNotFound));
    assert_eq!(get_named_port(&ports, " IAC Driver Bus 1"), Err(RelayError::PortNotFound));
    assert_eq!(get_named_port(&ports, ""), Err(RelayError::PortNotFound));
}

#[test]
fn first_of_several_ports_with_the_name_is_taken() {
    let ports = named(&[Some("A"), Some("B"), Some("B"), Some("A")]);
    assert_eq!(get_named_port(&ports, "B"), Ok(1));
    assert_eq!(get_named_port(&ports, "A"), Ok(0));
}

#[test]
fn port_without_a_readable_name_matches_nothing() {
    let ports = named(&[None, Some("B"), None]);
    assert_eq!(get_named_port(&ports, "B"), Ok(1));
    assert_eq!(get_named_port(&ports, ""), Err(RelayError::PortNotFound));
    let unreadable = named(&[None, None]);
    assert_eq!(get_named_port(&unreadable, "B"), Err(RelayError::PortNotFound));
}

#[test]
fn names_beyond_ascii_are_compared_exactly() {
    let ports = named(&[Some("Clavier é"), Some("Clavier e")]);
    assert_eq!(get_named_port(&ports, "Clavier e"), Ok(1));
    assert_eq!(get_named_port(&ports, "Clavier é"), Ok(0));
}

#[test]
fn resolving_twice_gives_the_same_port() {
    let ports = named(&[Some("A"), None, Some("B"), Some("B")]);
    let first = get_named_port(&ports, "B");
    let second = get_named_port(&ports, "B");
    assert_eq!(first, second);
    assert_eq!(first, Ok(2));
    let again = named(&[Some("B"), Some("A")]);
    let moved = get_named_port(&again, "B");
    assert_eq!(moved, Ok(0));
    assert_eq!(again[0], ports[2]);
}

#[test]
fn readable_names_are_listed_in_order() {
    let ports = named(&[Some("A"), None, Some("B"), Some("A"), None]);
    assert_eq!(port_names(&ports), vec!["A".to_string(), "B".to_string(), "A".to_string()]);
    assert_eq!(port_names(&Vec::new()), Vec::<String>::new());
    assert_eq!(port_names(&named(&[None])), Vec::<String>::new());
}

#[test]
fn inputs_and_outputs_are_listed_apart() {
    let inputs = named(&[Some("IAC Driver Bus 1"), None]);
    let outputs = named(&[None, Some("Network Network Session 1"), Some("Synth")]);
    let (input_names, output_names) = list_ports(&inputs, &outputs);
    assert_eq!(input_names, vec!["IAC Driver Bus 1".to_string()]);
    assert_eq!(output_names, vec!["Network Network Session 1".to_string(), "Synth".to_string()]);
}

#[test]
fn listing_twice_gives_the_same_names() {
    let inputs = named(&[Some("A"), None, Some("B")]);
    let outputs = named(&[Some("C")]);
    assert_eq!(list_ports(&inputs, &outputs), list_ports(&inputs, &outputs));
    assert_eq!(list_ports(&inputs, &outputs), list_ports(&inputs.clone(), &outputs.clone()));
}
