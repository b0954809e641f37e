//! Pixel-format byte widths and the error taxonomy.

use winbuf::{bytes_per_pixel, ClientError, ClientErrorKind, PixelFormat};

#[test]
fn bytes_per_pixel_of_every_format() {
    assert_eq!(bytes_per_pixel(PixelFormat::Argb8888), 4);
    assert_eq!(bytes_per_pixel(PixelFormat::Xrgb8888), 4);
    assert_eq!(bytes_per_pixel(PixelFormat::Abgr8888), 4);
    assert_eq!(bytes_per_pixel(PixelFormat::Xbgr8888), 4);
    assert_eq!(bytes_per_pixel(PixelFormat::Argb4444), 2);
    assert_eq!(bytes_per_pixel(PixelFormat::Xrgb4444), 2);
    assert_eq!(bytes_per_pixel(PixelFormat::Argb1555), 2);
    assert_eq!(bytes_per_pixel(PixelFormat::Xrgb1555), 2);
    assert_eq!(bytes_per_pixel(PixelFormat::Rgb565), 2);
    assert_eq!(bytes_per_pixel(PixelFormat::Rgb888), 3);
}

#[test]
fn initialization_errors_carry_their_kind() {
    let e = ClientError::Initialization {
        kind: ClientErrorKind::Pixel,
        message: "Pixel format not found".to_string(),
    };
    assert_eq!(e.kind(), Some(&ClientErrorKind::Pixel));
    assert_eq!(e.message(), "Pixel format not found");
}

#[test]
fn transport_errors_carry_no_kind() {
    let c = ClientError::Connection {
        message: "Failed to connect to the display server".to_string(),
    };
    assert_eq!(c.kind(), None);
    assert_eq!(c.message(), "Failed to connect to the display server");
    let d = ClientError::Dispatch {
        message: "Failed to dispatch".to_string(),
    };
    assert_eq!(d.kind(), None);
    assert_eq!(d.message(), "Failed to dispatch");
}
