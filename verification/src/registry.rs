//! Names of registries, of the images in them and of the accounts that own
//! them.

use crate::manifest::ResolvedImage;
use crate::text::{nth_piece, same_text};
use vstd::prelude::*;
use vstd::string::*;

verus! {

/// The partition that a role belongs to: the second field of its ARN, and the
/// standard partition where there is no role or no such field.
pub open spec fn partition_of(role_arn: Option<Seq<char>>) -> Seq<char> {
    match role_arn {
        Some(arn) => match crate::text::piece(arn, ':', 1) {
            Some(partition) => partition,
            None => "aws"@,
        },
        None => "aws"@,
    }
}

/// The domain under which the registries of a partition are found.
pub open spec fn domain_of(partition: Seq<char>) -> Seq<char> {
    if partition == "aws-cn"@ {
        "amazonaws.com.cn"@
    } else if partition == "aws-iso"@ {
        "c2s.ic.gov"@
    } else if partition == "aws-iso-b"@ {
        "sc2s.sgov.gov"@
    } else {
        "amazonaws.com"@
    }
}

/// The registry of an account in a region.
pub open spec fn registry_of(
    region: Seq<char>,
    account_id: Seq<char>,
    role_arn: Option<Seq<char>>,
) -> Seq<char> {
    account_id + ".dkr.ecr."@ + region + "."@ + domain_of(partition_of(role_arn))
}

/// The account that a role belongs to: the fifth field of its ARN.
pub open spec fn account_of(role_arn: Option<Seq<char>>) -> Option<Seq<char>> {
    match role_arn {
        Some(arn) => crate::text::piece(arn, ':', 4),
        None => None,
    }
}

/// An image under a host, or under what stands in a host's place.
pub open spec fn image_name(host: Seq<char>, image: crate::manifest::ImageView) -> Seq<char> {
    host + "/"@ + image.repository_name + ":"@ + image.tag
}

/// The host name of the ECR registry of `account_id` in `region`, in the
/// partition of the role that is taken there.
pub fn ecr_registry(region: &str, account_id: &str, role_arn: Option<&str>) -> (registry: String)
    ensures
        registry@ == registry_of(region@, account_id@, crate::text::opt_str_view(role_arn)),
{
    let partition: &str = match role_arn {
        Some(arn) => match nth_piece(arn, ':', 1) {
            Some(partition) => partition,
            None => "aws",
        },
        None => "aws",
    };
    let suffix: &str = if same_text(partition, "aws-cn") {
        "amazonaws.com.cn"
    } else if same_text(partition, "aws-iso") {
        "c2s.ic.gov"
    } else if same_text(partition, "aws-iso-b") {
        "sc2s.sgov.gov"
    } else {
        "amazonaws.com"
    };
    let mut registry = account_id.to_owned();
    registry.append(".dkr.ecr.");
    registry.append(region);
    registry.append(".");
    registry.append(suffix);
    registry
}

/// The account that the role belongs to, where there is a role and its ARN
/// names one.
pub fn role_account(role_arn: Option<&str>) -> (account_id: Option<String>)
    ensures
        crate::text::opt_view(account_id) == account_of(crate::text::opt_str_view(role_arn)),
{
    match role_arn {
        Some(arn) => match nth_piece(arn, ':', 4) {
            Some(account_id) => Some(account_id.to_owned()),
            None => None,
        },
        None => None,
    }
}

/// `host`, a slash, and the image's repository name and tag.
fn named_under(host: &str, image: &ResolvedImage) -> (name: String)
    ensures
        name@ == image_name(host@, image@),
{
    let mut name = host.to_owned();
    name.append("/");
    name.append(image.repository_name.as_str());
    name.append(":");
    name.append(image.tag.as_str());
    name
}

/// What the publication of `image` in `region` is called in reports.
pub fn job_label(region: &str, image: &ResolvedImage) -> (label: String)
    ensures
        label@ == image_name(region@, image@),
{
    named_under(region, image)
}

/// Where `image` goes in `registry`.
pub fn destination_uri(registry: &str, image: &ResolvedImage) -> (uri: String)
    ensures
        uri@ == image_name(registry@, image@),
{
    named_under(registry, image)
}

/// A role's ARN, read field by field, gives its partition and its account.
pub proof fn lemma_role_fields(
    prefix: Seq<char>,
    partition: Seq<char>,
    service: Seq<char>,
    region: Seq<char>,
    account_id: Seq<char>,
    resource: Seq<char>,
)
    requires
        !prefix.contains(':'),
        !partition.contains(':'),
        !service.contains(':'),
        !region.contains(':'),
        !account_id.contains(':'),
    ensures
        ({
            let arn = prefix + seq![':'] + (partition + seq![':'] + (service + seq![':'] + (region
                + seq![':'] + (account_id + seq![':'] + resource))));
            &&& partition_of(Some(arn)) == partition
            &&& account_of(Some(arn)) == Some(account_id)
        }),
{
    let from_account = account_id + seq![':'] + resource;
    let from_region = region + seq![':'] + from_account;
    let from_service = service + seq![':'] + from_region;
    let from_partition = partition + seq![':'] + from_service;
    crate::text::lemma_pieces_of_concatenation(account_id, ':', resource);
    crate::text::lemma_pieces_of_concatenation(region, ':', from_account);
    crate::text::lemma_pieces_of_concatenation(service, ':', from_region);
    crate::text::lemma_pieces_of_concatenation(partition, ':', from_service);
    crate::text::lemma_pieces_of_concatenation(prefix, ':', from_partition);
}

/// The registry depends on the role through its partition alone, and no role
/// means the standard partition.
pub proof fn lemma_registry_depends_on_partition(
    region: Seq<char>,
    account_id: Seq<char>,
    role_arn: Option<Seq<char>>,
    other_arn: Option<Seq<char>>,
)
    requires
        partition_of(role_arn) == partition_of(other_arn),
    ensures
        registry_of(region, account_id, role_arn) == registry_of(region, account_id, other_arn),
        partition_of(None) == "aws"@,
{
}

/// The partition and the account of a role are the second and the fifth field of
/// its ARN, whatever the ARN looks like. Without a role or such a field the
/// partition is the standard one and there is no account.
pub proof fn lemma_fields_of_role(arn: Seq<char>)
    ensures
        crate::text::piece(arn, ':', 1) matches Some(field) ==> partition_of(Some(arn)) == field,
        crate::text::piece(arn, ':', 1) is None ==> partition_of(Some(arn)) == "aws"@,
        partition_of(None) == "aws"@,
        account_of(Some(arn)) == crate::text::piece(arn, ':', 4),
        account_of(None) is None,
{
}

/// A registry is named by its account, its region and the domain of the
/// partition, for every account, region and role. Only three partitions have
/// domains of their own.
pub proof fn lemma_registry_name(
    region: Seq<char>,
    account_id: Seq<char>,
    role_arn: Option<Seq<char>>,
)
    ensures
        ({
            let name = registry_of(region, account_id, role_arn);
            let start = account_id + ".dkr.ecr."@ + region + "."@;
            let partition = partition_of(role_arn);
            &&& partition == "aws-cn"@ ==> name == start + "amazonaws.com.cn"@
            &&& partition == "aws-iso"@ ==> name == start + "c2s.ic.gov"@
            &&& partition == "aws-iso-b"@ ==> name == start + "sc2s.sgov.gov"@
            &&& partition != "aws-cn"@ && partition != "aws-iso"@ && partition != "aws-iso-b"@
                ==> name == start + "amazonaws.com"@
        }),
{
    reveal_strlit("aws-cn");
    reveal_strlit("aws-iso");
    reveal_strlit("aws-iso-b");
    assert("aws-cn"@.len() == 6 && "aws-iso"@.len() == 7 && "aws-iso-b"@.len() == 9);
}

/// The registries of one account in two regions differ, whatever roles are
/// taken, and so do the registries of two accounts in one region.
pub proof fn lemma_registries_differ(
    region: Seq<char>,
    other_region: Seq<char>,
    account_id: Seq<char>,
    other_account_id: Seq<char>,
    role_arn: Option<Seq<char>>,
    other_arn: Option<Seq<char>>,
)
    requires
        !region.contains('.'),
        !other_region.contains('.'),
        !account_id.contains('.'),
        !other_account_id.contains('.'),
        region != other_region || account_id != other_account_id,
    ensures
        registry_of(region, account_id, role_arn) != registry_of(
            other_region,
            other_account_id,
            other_arn,
        ),
{
    lemma_label_of_registry(region, account_id, role_arn);
    lemma_label_of_registry(other_region, other_account_id, other_arn);
}

/// Between dots, a registry's name starts with the account, two fixed labels
/// and the region.
proof fn lemma_label_of_registry(
    region: Seq<char>,
    account_id: Seq<char>,
    role_arn: Option<Seq<char>>,
)
    requires
        !region.contains('.'),
        !account_id.contains('.'),
    ensures
        crate::text::piece(registry_of(region, account_id, role_arn), '.', 0) == Some(account_id),
        crate::text::piece(registry_of(region, account_id, role_arn), '.', 3) == Some(region),
{
    reveal_strlit(".dkr.ecr.");
    reveal_strlit(".");
    let name = registry_of(region, account_id, role_arn);
    let dkr = seq!['d', 'k', 'r'];
    let ecr = seq!['e', 'c', 'r'];
    let domain = domain_of(partition_of(role_arn));
    let from_region = region + seq!['.'] + domain;
    let from_ecr = ecr + seq!['.'] + from_region;
    let from_dkr = dkr + seq!['.'] + from_ecr;
    assert(name == account_id + seq!['.'] + from_dkr);
    assert(!dkr.contains('.'));
    assert(!ecr.contains('.'));
    crate::text::lemma_piece_by_piece(account_id, '.', from_dkr, 2);
    crate::text::lemma_piece_by_piece(dkr, '.', from_ecr, 1);
    crate::text::lemma_piece_by_piece(ecr, '.', from_region, 0);
    crate::text::lemma_piece_by_piece(region, '.', domain, 0);
}

/// An image is named by its host, its repository and its tag, and by nothing
/// else: not by where it comes from.
pub proof fn lemma_image_name_parts(host: Seq<char>, image: crate::manifest::ImageView)
    ensures
        image_name(host, image) == host + "/"@ + image.repository_name + ":"@ + image.tag,
{
}

} // verus!
