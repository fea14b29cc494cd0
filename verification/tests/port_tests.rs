use hopen::errors::Error;
use hopen::ports::{find_existing_server, find_free_port, PortStatus, PORT_RANGE_START};

#[test]
fn free_port_is_the_smallest_free_one() {
    let status = vec![
        PortStatus::Bound(10),
        PortStatus::BoundUnknown,
        PortStatus::Free,
        PortStatus::Free,
    ];
    assert_eq!(find_free_port(8000, &status).unwrap(), 8002);
}

#[test]
fn free_port_when_first_is_free() {
    let status = vec![PortStatus::Free, PortStatus::Bound(1)];
    assert_eq!(find_free_port(PORT_RANGE_START, &status).unwrap(), PORT_RANGE_START);
}

#[test]
fn no_port_available_when_all_bound() {
    let status = vec![PortStatus::Bound(1), PortStatus::BoundUnknown, PortStatus::Bound(2)];
    assert_eq!(find_free_port(8000, &status).unwrap_err(), Error::NoPortAvailable);
}

#[test]
fn no_port_available_on_empty_range() {
    let status: Vec<PortStatus> = vec![];
    assert_eq!(find_free_port(8000, &status).unwrap_err(), Error::NoPortAvailable);
}

#[test]
fn existing_server_is_first_owned_port() {
    let status = vec![
        PortStatus::Free,
        PortStatus::BoundUnknown,
        PortStatus::Bound(4242),
        PortStatus::Bound(1),
    ];
    assert_eq!(find_existing_server(8000, &status), Some((4242, 8002)));
}

#[test]
fn existing_server_none_without_owner() {
    let status = vec![PortStatus::Free, PortStatus::BoundUnknown];
    assert_eq!(find_existing_server(8000, &status), None);
}
