use async_language_server::transport::Transport;

#[test]
fn transport_names_follow_their_variant() {
    assert_eq!(Transport::Stdio.to_string(), "Stdio");
    assert_eq!(Transport::Socket(9999).to_string(), "Socket(9999)");
}

#[test]
fn socket_names_write_the_port_in_decimal() {
    assert_eq!(Transport::Socket(0).to_string(), "Socket(0)");
    assert_eq!(Transport::Socket(7).to_string(), "Socket(7)");
    assert_eq!(Transport::Socket(10).to_string(), "Socket(10)");
    assert_eq!(Transport::Socket(65535).to_string(), "Socket(65535)");
}

#[test]
fn default_transport_is_stdio() {
    assert_eq!(Transport::default(), Transport::Stdio);
}
