use qorvex_core::usb_tunnel::UsbTunnelError;

#[test]
fn usb_tunnel_error_display() {
    let err = UsbTunnelError::UsbmuxdUnavailable("not running".into());
    assert!(err.message().contains("usbmuxd"));

    let err = UsbTunnelError::DeviceNotFound("ABC123".into());
    assert!(err.message().contains("ABC123"));

    let err = UsbTunnelError::ConnectionFailed("refused".into());
    assert!(err.message().contains("refused"));

    let err = UsbTunnelError::NoSocket;
    assert!(err.message().contains("socket unavailable"));
}
