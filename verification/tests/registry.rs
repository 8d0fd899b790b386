use pubsys_ecr::manifest::{infer_tag, resolve_images, ResolvedImage, ResolvedSource};
use pubsys_ecr::registry::{destination_uri, ecr_registry, job_label, role_account};

fn image() -> ResolvedImage {
    resolve_images(None, Some("h/r:v1"), None, Some("my-repo"), None)
        .unwrap()
        .remove(0)
}

#[test]
fn test_ecr_registry_aws() {
    let arn = "arn:aws:iam::111222333444:role/TestRole";
    let result = ecr_registry("us-west-2", "111222333444", Some(arn));
    assert_eq!(result, "111222333444.dkr.ecr.us-west-2.amazonaws.com");
}

#[test]
fn test_ecr_registry_aws_cn() {
    let arn = "arn:aws-cn:iam::555666777888:role/TestRole";
    let result = ecr_registry("cn-north-1", "555666777888", Some(arn));
    assert_eq!(result, "555666777888.dkr.ecr.cn-north-1.amazonaws.com.cn");
}

#[test]
fn test_ecr_registry_no_role() {
    let result = ecr_registry("us-west-2", "111222333444", None);
    assert_eq!(result, "111222333444.dkr.ecr.us-west-2.amazonaws.com");
}

#[test]
fn isolated_partitions_have_their_own_domains() {
    assert_eq!(
        ecr_registry("us-iso-east-1", "1", Some("arn:aws-iso:iam::1:role/R")),
        "1.dkr.ecr.us-iso-east-1.c2s.ic.gov"
    );
    assert_eq!(
        ecr_registry("us-isob-east-1", "1", Some("arn:aws-iso-b:iam::1:role/R")),
        "1.dkr.ecr.us-isob-east-1.sc2s.sgov.gov"
    );
}

#[test]
fn other_partitions_have_the_standard_domain() {
    for arn in ["arn:aws-us-gov:iam::1:role/R", "", "no-colon", "arn:", "arn::x"] {
        assert_eq!(
            ecr_registry("r", "1", Some(arn)),
            "1.dkr.ecr.r.amazonaws.com"
        );
    }
}

#[test]
fn role_names_its_account() {
    let account = |arn: &str| role_account(Some(arn));
    assert_eq!(
        account("arn:aws:iam::111222333444:role/TestRole"),
        Some("111222333444".to_owned())
    );
    assert_eq!(account("a:b:c:d:e"), Some("e".to_owned()));
    assert_eq!(account("a:b:c:d:"), Some("".to_owned()));
    assert_eq!(account("a:b:c:d"), None);
    assert_eq!(account(""), None);
    assert_eq!(role_account(None), None);
}

#[test]
fn label_and_destination_name_the_image() {
    assert_eq!(job_label("us-west-2", &image()), "us-west-2/my-repo:v1");
    assert_eq!(destination_uri("reg.example", &image()), "reg.example/my-repo:v1");
}

#[test]
fn destination_gives_back_its_tag() {
    let registry = ecr_registry("us-west-2", "111222333444", None);
    let uri = destination_uri(&registry, &image());
    assert_eq!(infer_tag(&ResolvedSource::Registry(uri), 0).unwrap(), "v1");
}
