use tarball_store::error::{DecompressError, FetchError};
use tarball_store::gzip::{check_inflated, decompress_gzip, read_footer_size, InflateError};

fn gzip_of(data: &[u8]) -> Vec<u8> {
    let mut compressor = libdeflater::Compressor::new(libdeflater::CompressionLvl::default());
    let mut out = vec![0u8; compressor.gzip_compress_bound(data.len())];
    let n = compressor.gzip_compress(data, &mut out).unwrap();
    out.truncate(n);
    out
}

#[test]
fn gzip_round_trip() {
    let data = b"hello hello hello hello world".to_vec();
    assert_eq!(decompress_gzip(&gzip_of(&data)), Ok(data));
}

#[test]
fn gzip_of_nothing() {
    assert_eq!(decompress_gzip(&gzip_of(b"")), Ok(Vec::new()));
}

#[test]
fn output_has_the_announced_length() {
    for len in [1usize, 2, 255, 256, 257, 65536, 70000] {
        let data: Vec<u8> = (0..len).map(|i| (i % 251) as u8).collect();
        let gz = gzip_of(&data);
        assert_eq!(read_footer_size(&gz) as usize, len);
        let out = decompress_gzip(&gz).unwrap();
        assert_eq!(out.len(), len);
        assert_eq!(out, data);
    }
}

#[test]
fn footer_is_little_endian() {
    assert_eq!(read_footer_size(&[1, 2, 3, 4]), 0x04030201);
    assert_eq!(read_footer_size(&[9, 9, 1, 2, 3, 4]), 67305985);
    assert_eq!(read_footer_size(&[0xff, 0xff, 0xff, 0xff]), u32::MAX);
    assert_eq!(read_footer_size(&[7, 0, 1, 0, 0]), 256);
    assert_eq!(read_footer_size(&[0, 0, 0, 0]), 0);
}

#[test]
fn too_short_input_fails_cleanly() {
    for input in [&[][..], &[0x1f][..], &[0x1f, 0x8b][..], &[0x1f, 0x8b, 0x08][..]] {
        assert_eq!(
            decompress_gzip(input),
            Err(FetchError::Decompress(DecompressError::TooShort))
        );
    }
}

#[test]
fn garbage_is_bad_data() {
    assert_eq!(
        decompress_gzip(&[0, 0, 0, 0]),
        Err(FetchError::Decompress(DecompressError::BadData))
    );
    assert_eq!(
        decompress_gzip(b"this is no gzip stream\x05\x00\x00\x00"),
        Err(FetchError::Decompress(DecompressError::BadData))
    );
}

#[test]
fn corrupted_body_is_bad_data() {
    let mut gz = gzip_of(b"hello hello hello hello world");
    let middle = gz.len() / 2;
    gz[middle] ^= 0x55;
    assert_eq!(
        decompress_gzip(&gz),
        Err(FetchError::Decompress(DecompressError::BadData))
    );
}

#[test]
fn footer_that_announces_too_little() {
    // Bytes behind the stream are taken for its size field.
    let mut gz = gzip_of(b"hello world");
    gz.extend_from_slice(&[3, 0, 0, 0]);
    assert_eq!(
        decompress_gzip(&gz),
        Err(FetchError::Decompress(DecompressError::InsufficientSpace))
    );
}

#[test]
fn footer_that_announces_too_much() {
    let mut gz = gzip_of(b"hello world");
    gz.extend_from_slice(&[200, 0, 0, 0]);
    assert_eq!(
        decompress_gzip(&gz),
        Err(FetchError::Decompress(DecompressError::SizeMismatch))
    );
}

#[test]
fn flipped_size_field_is_refused() {
    let mut gz = gzip_of(b"hello world");
    let last = gz.len() - 4;
    gz[last] += 1;
    assert!(matches!(decompress_gzip(&gz), Err(FetchError::Decompress(_))));
    gz[last] -= 2;
    assert!(matches!(decompress_gzip(&gz), Err(FetchError::Decompress(_))));
}

#[test]
fn outcome_of_the_inflater_is_judged() {
    assert_eq!(check_inflated(vec![1, 2, 3], Ok(3)), Ok(vec![1, 2, 3]));
    assert_eq!(check_inflated(Vec::new(), Ok(0)), Ok(Vec::new()));
    assert_eq!(
        check_inflated(vec![1, 2, 3], Ok(2)),
        Err(FetchError::Decompress(DecompressError::SizeMismatch))
    );
    assert_eq!(
        check_inflated(vec![1, 2, 3], Ok(4)),
        Err(FetchError::Decompress(DecompressError::SizeMismatch))
    );
    assert_eq!(
        check_inflated(vec![1, 2, 3], Err(InflateError::BadData)),
        Err(FetchError::Decompress(DecompressError::BadData))
    );
    assert_eq!(
        check_inflated(vec![1, 2, 3], Err(InflateError::InsufficientSpace)),
        Err(FetchError::Decompress(DecompressError::InsufficientSpace))
    );
}
