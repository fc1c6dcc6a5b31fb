use htmxology::server_errors::{GetTcpListenerError, NewWithAutoReloadError, ServeError};

#[test]
fn listener_error_messages() {
    assert_eq!(
        GetTcpListenerError::ListenFd("bad fd".to_string()).to_string(),
        "failed to get a listener from `listenfd`: bad fd"
    );
    assert_eq!(
        GetTcpListenerError::SetNonblocking("x".to_string()).to_string(),
        "failed to set the TCP listener to non-blocking mode: x"
    );
    assert_eq!(
        GetTcpListenerError::FromStd("x".to_string()).to_string(),
        "failed to build a TCP listener from a standard listener: x"
    );
    assert_eq!(
        GetTcpListenerError::Bind("address in use".to_string()).to_string(),
        "failed to bind to a local address: address in use"
    );
}

#[test]
fn auto_reload_and_serve_error_messages() {
    let e = NewWithAutoReloadError::GetTcpListener(GetTcpListenerError::Bind("in use".to_string()));
    assert_eq!(e.to_string(), "failed to get a TCP listener: failed to bind to a local address: in use");
    assert_eq!(ServeError::Io("reset".to_string()).to_string(), "failed to serve the application: reset");
    assert_eq!(
        ServeError::LocalAddr("none".to_string()).to_string(),
        "failed to get the local address of the listener: none"
    );
}
