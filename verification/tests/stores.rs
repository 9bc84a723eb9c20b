use object_store::aws::{AmazonS3Builder, AmazonS3ConfigKey};
use slatedb_benchmark::stores::configured_s3_endpoint;

#[test]
fn configured_endpoint_uses_builder_precedence_without_a_fabricated_default() {
    assert_eq!(configured_s3_endpoint(&AmazonS3Builder::new()), None);

    let builder = AmazonS3Builder::new()
        .with_config(AmazonS3ConfigKey::Endpoint, "https://generic.example")
        .with_config(AmazonS3ConfigKey::S3Endpoint, "https://s3-specific.example");
    assert_eq!(
        configured_s3_endpoint(&builder).as_deref(),
        Some("https://s3-specific.example")
    );
}
