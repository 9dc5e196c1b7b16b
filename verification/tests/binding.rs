use radar_lib::public_network::binding::{ no_source_message, READ_TIMEOUT_SECS, ROUTER_TIMEOUT_SECS, SERVER_TIMEOUT_SECS, };
use radar_lib::public_network::binding::{
    binding_request, first_source, ip_from_stun_response, new_binding_request, next_step,
    read_mapped_address, stun_servers, BindingError, Source, Step,
};

fn response_with(attributes: &[u8]) -> Vec<u8> {
    let mut r = vec![0x01, 0x01, 0x00, attributes.len() as u8, 0x21, 0x12, 0xa4, 0x42];
    r.extend_from_slice(&[1, 2, 3, 4, 5, 6, 7, 8, 9, 10, 11, 12]);
    r.extend_from_slice(attributes);
    r
}

fn mapped(family: u8, ip: [u8; 4]) -> Vec<u8> {
    vec![
        0x00, 0x20, 0x00, 0x08, 0x00, family, 0x11, 0x2b,
        ip[0] ^ 0x21, ip[1] ^ 0x12, ip[2] ^ 0xa4, ip[3] ^ 0x42,
    ]
}

#[test]
fn mapped_address_is_recovered() {
    let r = response_with(&mapped(1, [93, 184, 216, 34]));
    assert_eq!(r.len(), 32);
    assert_eq!(ip_from_stun_response(&r), Ok("93.184.216.34".to_string()));
    assert_eq!(read_mapped_address(&r), Ok((93, 184, 216, 34)));
}

#[test]
fn other_attributes_are_passed_over_with_their_padding() {
    let mut attributes = vec![0x80, 0x22, 0x00, 0x05, b'h', b'e', b'l', b'l', b'o', 0, 0, 0];
    attributes.extend_from_slice(&[0x00, 0x01, 0x00, 0x04, 9, 9, 9, 9]);
    attributes.extend_from_slice(&mapped(1, [10, 0, 0, 255]));
    assert_eq!(ip_from_stun_response(&response_with(&attributes)), Ok("10.0.0.255".to_string()));
}

#[test]
fn short_response_is_refused() {
    assert_eq!(ip_from_stun_response(&[1, 1, 0, 0]), Err(BindingError::TooShort(4)));
    assert_eq!(ip_from_stun_response(&[]), Err(BindingError::TooShort(0)));
    assert_eq!(BindingError::TooShort(4).message(), "Invalid STUN response size: 4");
}

#[test]
fn response_of_another_type_is_refused() {
    let mut r = response_with(&mapped(1, [1, 2, 3, 4]));
    r[1] = 0x11;
    assert_eq!(ip_from_stun_response(&r), Err(BindingError::NotBindingResponse));
    assert_eq!(BindingError::NotBindingResponse.message(), "Not a STUN Binding Response");
}

#[test]
fn ipv6_address_is_refused() {
    let r = response_with(&mapped(2, [1, 2, 3, 4]));
    assert_eq!(ip_from_stun_response(&r), Err(BindingError::Ipv6Unsupported));
    assert_eq!(BindingError::Ipv6Unsupported.message(), "IPv6 handling not implemented");
}

#[test]
fn response_without_mapped_address_gives_none() {
    assert_eq!(ip_from_stun_response(&response_with(&[])), Err(BindingError::NoMappedAddress));
    let unknown_family = response_with(&mapped(3, [1, 2, 3, 4]));
    assert_eq!(ip_from_stun_response(&unknown_family), Err(BindingError::NoMappedAddress));
    let other = response_with(&[0x00, 0x01, 0x00, 0x08, 0, 1, 0, 0, 1, 2, 3, 4]);
    assert_eq!(ip_from_stun_response(&other), Err(BindingError::NoMappedAddress));
    assert_eq!(
        BindingError::NoMappedAddress.message(),
        "Could not find XOR-MAPPED-ADDRESS in STUN response"
    );
}

#[test]
fn attribute_cut_short_gives_no_address() {
    let mut r = response_with(&mapped(1, [93, 184, 216, 34]));
    r.truncate(30);
    assert_eq!(ip_from_stun_response(&r), Err(BindingError::NoMappedAddress));
}

#[test]
fn attribute_that_claims_more_than_is_there_ends_the_search() {
    let mut attributes = vec![0x00, 0x01, 0xff, 0xff, 0, 0, 0, 0];
    attributes.extend_from_slice(&mapped(1, [1, 2, 3, 4]));
    assert_eq!(ip_from_stun_response(&response_with(&attributes)), Err(BindingError::NoMappedAddress));
}

#[test]
fn request_is_header_and_transaction() {
    let txn = [9u8, 8, 7, 6, 5, 4, 3, 2, 1, 0, 0xaa, 0xbb];
    let r = binding_request(&txn);
    assert_eq!(
        r,
        vec![0x00, 0x01, 0x00, 0x00, 0x21, 0x12, 0xa4, 0x42, 9, 8, 7, 6, 5, 4, 3, 2, 1, 0, 0xaa, 0xbb]
    );
    let fresh = new_binding_request();
    assert_eq!(fresh.len(), 20);
    assert_eq!(&fresh[..8], &[0x00, 0x01, 0x00, 0x00, 0x21, 0x12, 0xa4, 0x42]);
}

#[test]
fn servers_are_tried_in_order_then_the_router() {
    let servers = stun_servers();
    assert_eq!(servers.len(), 6);
    assert_eq!(servers[0], "stun.l.google.com:19302");
    assert_eq!(servers[5], "stun.sipgate.net:10000");
    assert_eq!(first_source(6), Source::Server(0));
    assert_eq!(first_source(0), Source::Router);
    assert_eq!(next_step(6, Source::Server(0), None), Step::Ask(Source::Server(1)));
    assert_eq!(next_step(6, Source::Server(4), None), Step::Ask(Source::Server(5)));
    assert_eq!(next_step(6, Source::Server(5), None), Step::Ask(Source::Router));
    assert_eq!(next_step(6, Source::Router, None), Step::Failed);
    assert_eq!(
        next_step(6, Source::Server(2), Some("1.2.3.4".to_string())),
        Step::Found("1.2.3.4".to_string())
    );
    assert_eq!(
        next_step(6, Source::Router, Some("1.2.3.4".to_string())),
        Step::Found("1.2.3.4".to_string())
    );
}

#[test]
fn each_attempt_has_its_time() {
    assert_eq!((SERVER_TIMEOUT_SECS, READ_TIMEOUT_SECS, ROUTER_TIMEOUT_SECS), (3, 2, 5));
    assert_eq!(no_source_message(), "Could not determine public IP address from any source");
}
