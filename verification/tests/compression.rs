use brokaw::raw::compression::Compression;

#[test]
fn test_use_decoder() {
    assert!(Compression::XFeature
        .use_decoder("224 xover information follows [COMPRESS=GZIP]\r\n".as_bytes()));
    assert!(!Compression::XFeature
        .use_decoder("224 xover information follows [COMPRESS=GZIP]".as_bytes()))
}
