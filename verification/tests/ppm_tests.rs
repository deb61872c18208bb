use multibrot_ppm_rs::ppm::{PPMImageBuffer, PpmError};
use multibrot_ppm_rs::raster::grid::raster_len;

fn ramp_bytes(len: usize) -> Vec<u8> {
    let mut bytes = Vec::with_capacity(len);
    for i in 0..len {
        bytes.push((i % 251) as u8);
    }
    bytes
}

#[test]
fn new_accepts_a_raster_of_the_right_length() {
    let raster = vec![10u8, 20, 30, 40, 50, 60];
    let buffer = PPMImageBuffer::new(2, 1, raster.clone()).unwrap();
    assert_eq!(buffer.width(), 2);
    assert_eq!(buffer.height(), 1);
    assert_eq!(buffer.raster(), &raster);
}

#[test]
fn new_rejects_zero_width() {
    assert_eq!(PPMImageBuffer::new(0, 4, Vec::new()).err(), Some(PpmError::ZeroDimension));
}

#[test]
fn new_rejects_zero_height() {
    assert_eq!(PPMImageBuffer::new(4, 0, Vec::new()).err(), Some(PpmError::ZeroDimension));
}

#[test]
fn new_judges_dimensions_before_length() {
    assert_eq!(PPMImageBuffer::new(0, 0, vec![1u8, 2, 3]).err(), Some(PpmError::ZeroDimension));
    assert_eq!(PPMImageBuffer::new(0, 7, vec![1u8; 21]).err(), Some(PpmError::ZeroDimension));
}

#[test]
fn new_rejects_a_short_raster() {
    assert_eq!(PPMImageBuffer::new(2, 1, vec![1u8; 5]).err(), Some(PpmError::LengthMismatch));
    assert_eq!(PPMImageBuffer::new(2, 1, Vec::new()).err(), Some(PpmError::LengthMismatch));
}

#[test]
fn new_rejects_a_long_raster() {
    assert_eq!(PPMImageBuffer::new(2, 1, vec![1u8; 7]).err(), Some(PpmError::LengthMismatch));
    assert_eq!(PPMImageBuffer::new(1, 1, vec![1u8; 6]).err(), Some(PpmError::LengthMismatch));
}

#[test]
fn new_rejects_a_raster_counted_in_pixels() {
    assert_eq!(PPMImageBuffer::new(3, 3, vec![0u8; 9]).err(), Some(PpmError::LengthMismatch));
    assert!(PPMImageBuffer::new(3, 3, vec![0u8; 27]).is_ok());
}

#[test]
fn largest_dimensions_are_too_large_only_where_the_length_does_not_fit() {
    let fits = usize::try_from(65535u64 * 65535 * 3).ok();
    assert_eq!(raster_len(65535, 65535), fits);
    if fits.is_none() {
        assert_eq!(
            PPMImageBuffer::new(65535, 65535, Vec::new()).err(),
            Some(PpmError::TooLarge)
        );
    } else {
        assert_eq!(
            PPMImageBuffer::new(65535, 65535, Vec::new()).err(),
            Some(PpmError::LengthMismatch)
        );
    }
}

#[test]
fn encode_two_by_one() {
    let buffer = PPMImageBuffer::new(2, 1, vec![10u8, 20, 30, 40, 50, 60]).unwrap();
    let mut expected = b"P6\n2 1\n255\n".to_vec();
    expected.extend_from_slice(&[10, 20, 30, 40, 50, 60]);
    assert_eq!(buffer.encode(), expected);
    assert_eq!(buffer.encode().len(), 11 + 6);
}

#[test]
fn encode_one_pixel() {
    let buffer = PPMImageBuffer::new(1, 1, vec![255u8, 0, 128]).unwrap();
    assert_eq!(
        buffer.encode(),
        vec![0x50u8, 0x36, 0x0a, 0x31, 0x20, 0x31, 0x0a, 0x32, 0x35, 0x35, 0x0a, 255, 0, 128]
    );
}

#[test]
fn encode_writes_dimensions_in_decimal() {
    let cases: [(u16, u16, &[u8]); 6] = [
        (9, 1, b"P6\n9 1\n255\n"),
        (10, 1, b"P6\n10 1\n255\n"),
        (1, 100, b"P6\n1 100\n255\n"),
        (1000, 3, b"P6\n1000 3\n255\n"),
        (65535, 1, b"P6\n65535 1\n255\n"),
        (309, 40, b"P6\n309 40\n255\n"),
    ];
    for (width, height, header) in cases {
        let raster = ramp_bytes(width as usize * height as usize * 3);
        let buffer = PPMImageBuffer::new(width, height, raster.clone()).unwrap();
        let bytes = buffer.encode();
        assert_eq!(&bytes[..header.len()], header);
        assert_eq!(&bytes[header.len()..], &raster[..]);
    }
}

#[test]
fn encode_keeps_bytes_that_look_like_white_space() {
    let raster = vec![0x0au8, 0x20, 0x0a, 0x50, 0x36, 0x0a];
    let buffer = PPMImageBuffer::new(1, 2, raster.clone()).unwrap();
    let bytes = buffer.encode();
    assert_eq!(&bytes[..11], b"P6\n1 2\n255\n");
    assert_eq!(&bytes[11..], &raster[..]);
}

#[test]
fn encode_twice_gives_the_same_bytes() {
    let buffer = PPMImageBuffer::new(4, 4, ramp_bytes(48)).unwrap();
    assert_eq!(buffer.encode(), buffer.encode());
}

#[test]
fn ppm_error_says_why() {
    assert_eq!(PpmError::ZeroDimension.message(), "width and height must be > 0");
    assert_eq!(PpmError::TooLarge.message(), "image dimensions too large");
    assert_eq!(PpmError::LengthMismatch.message(), "raster length must be width * height * 3");
    assert_eq!(
        PPMImageBuffer::new(0, 1, Vec::new()).err().unwrap().message(),
        "width and height must be > 0"
    );
}
