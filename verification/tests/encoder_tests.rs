use screenshot::framebuffer::encode;
use screenshot::framebuffer::try_encode;
use screenshot::framebuffer::EncodeError;

const PIXELS: usize = 256 * 240;

/// A palette table whose entry `i` is the triple `(3i, 3i + 1, 3i + 2)`,
/// so every entry is distinguishable in the output.
fn stub_palette() -> Vec<u8> {
    (0u16..192).map(|i| i as u8).collect()
}

/// A snapshot that cycles through every palette index in [0, 63].
fn stub_snapshot() -> Vec<u8> {
    (0..PIXELS).map(|i| (i % 64) as u8).collect()
}

#[test]
fn encode_is_deterministic() {
    let snapshot = stub_snapshot();
    let palette = stub_palette();
    let first = encode(&snapshot, &palette);
    let second = encode(&snapshot, &palette);
    assert_eq!(first, second);
    let third = try_encode(&snapshot, &palette).unwrap();
    assert_eq!(first, third);
}

#[test]
fn encode_output_has_image_dimensions() {
    let img = encode(&stub_snapshot(), &stub_palette());
    assert_eq!(img.len(), PIXELS * 4);
}

#[test]
fn index_zero_maps_to_first_palette_entry() {
    let snapshot = vec![0u8; PIXELS];
    let img = encode(&snapshot, &stub_palette());
    assert_eq!(&img[0..4], &[0, 1, 2, 255]);
}

#[test]
fn index_63_maps_to_last_palette_entry() {
    // Boundary: the highest legal index reads the last triple of the table
    // without any out-of-range access.
    let snapshot = vec![63u8; PIXELS];
    let img = encode(&snapshot, &stub_palette());
    assert_eq!(&img[0..4], &[189, 190, 191, 255]);
    assert_eq!(&img[img.len() - 4..], &[189, 190, 191, 255]);
}

#[test]
fn every_legal_index_maps_to_its_triple() {
    let img = encode(&stub_snapshot(), &stub_palette());
    for index in 0u8..64 {
        let p = index as usize * 4;
        let rgb = index as usize * 3;
        assert_eq!(
            &img[p..p + 4],
            &[rgb as u8, (rgb + 1) as u8, (rgb + 2) as u8, 255],
        );
    }
}

#[test]
fn alpha_is_always_opaque() {
    let img = encode(&stub_snapshot(), &stub_palette());
    for pix in 0..PIXELS {
        assert_eq!(img[4 * pix + 3], 255);
    }
}

#[test]
fn try_encode_rejects_wrong_snapshot_size() {
    let err = try_encode(&vec![0u8; 100], &stub_palette()).unwrap_err();
    assert_eq!(err, EncodeError::SnapshotSize { len: 100 });
}

#[test]
fn try_encode_rejects_wrong_palette_size() {
    let err = try_encode(&vec![0u8; PIXELS], &vec![0u8; 64]).unwrap_err();
    assert_eq!(err, EncodeError::PaletteSize { len: 64 });
}

#[test]
fn try_encode_rejects_out_of_range_index() {
    let mut snapshot = vec![0u8; PIXELS];
    snapshot[17] = 64;
    let err = try_encode(&snapshot, &stub_palette()).unwrap_err();
    assert_eq!(err, EncodeError::IndexOutOfRange { pixel: 17, index: 64 });
}
