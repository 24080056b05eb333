use viewview::payload::{PayloadError, ViewshedPayload};

#[test]
fn payload_starts_with_angle_subdivisions() {
    let payload = ViewshedPayload::new(360);
    assert!(payload.needs_biggest());
    assert_eq!(payload.into_body(), Some(vec![0, 0, 1, 104]));
}

#[test]
fn first_row_adds_biggest_viewshed() {
    let mut payload = ViewshedPayload::new(0x0102_0304);
    let lon = (-2.5879f32).to_bits();
    let lat = 51.4545f32.to_bits();
    assert_eq!(payload.push_row(7, &[9, 8, 7], Some((lon, lat))), Ok(()));
    assert!(!payload.needs_biggest());
    assert_eq!(payload.push_row(0x0100, &[], None), Ok(()));
    let mut expected = vec![1, 2, 3, 4];
    expected.extend_from_slice(&(-2.5879f32).to_be_bytes());
    expected.extend_from_slice(&51.4545f32.to_be_bytes());
    expected.extend_from_slice(&[0, 7, 0, 3, 9, 8, 7]);
    expected.extend_from_slice(&[1, 0, 0, 0]);
    assert_eq!(payload.into_body(), Some(expected));
}

#[test]
fn blob_longer_than_u16_is_refused() {
    let mut payload = ViewshedPayload::new(1);
    let blob = vec![0u8; 65536];
    assert_eq!(payload.push_row(1, &blob, Some((0, 0))), Err(PayloadError::BlobTooLong));
    assert!(payload.needs_biggest());
    assert_eq!(payload.into_body(), Some(vec![0, 0, 0, 1]));
}

#[test]
fn blob_of_u16_max_is_accepted() {
    let mut payload = ViewshedPayload::new(1);
    let blob = vec![5u8; 65535];
    assert_eq!(payload.push_row(2, &blob, Some((0, 0))), Ok(()));
    let body = payload.into_body().unwrap();
    assert_eq!(body.len(), 4 + 8 + 4 + 65535);
    assert_eq!(&body[12..16], &[0, 2, 0xff, 0xff]);
}
