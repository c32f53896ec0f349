use tiny_dynamo::error::{ConfigError, Error};
use tiny_dynamo::region::Region;

#[test]
fn known_identifiers_parse() {
    assert_eq!(Region::parse("us-east-1"), Ok(Region::UsEast1));
    assert_eq!(Region::parse("us-west-2"), Ok(Region::UsWest2));
    assert_eq!(Region::parse("eu-central-1"), Ok(Region::EuCentral1));
    assert_eq!(Region::parse("ap-southeast-2"), Ok(Region::ApSoutheast2));
    assert_eq!(Region::parse("sa-east-1"), Ok(Region::SaEast1));
}

#[test]
fn unknown_identifiers_are_rejected_strictly() {
    for bad in ["us-east-9", "US-EAST-1", "us-east-1 ", ""] {
        assert_eq!(
            Region::parse(bad),
            Err(Error::Config(ConfigError::UnknownRegion(bad.to_owned())))
        );
    }
}

#[test]
fn identifiers_are_the_published_strings() {
    assert_eq!(Region::UsEast1.id(), "us-east-1");
    assert_eq!(Region::ApNortheast3.id(), "ap-northeast-3");
    assert_eq!(Region::UsGovWest1.id(), "us-gov-west-1");
}

#[test]
fn endpoints_are_the_published_hosts() {
    assert_eq!(Region::UsEast1.endpoint(), "dynamodb.us-east-1.amazonaws.com");
    assert_eq!(Region::EuNorth1.endpoint(), "dynamodb.eu-north-1.amazonaws.com");
    assert_eq!(
        Region::UsGovEast1.endpoint(),
        "dynamodb.us-gov-east-1.amazonaws.com"
    );
}

#[test]
fn every_region_round_trips_through_its_identifier() {
    let regions = [
        Region::UsEast1, Region::UsEast2, Region::UsWest1, Region::UsWest2,
        Region::AfSouth1, Region::ApEast1, Region::ApSouth1, Region::ApNortheast1,
        Region::ApNortheast2, Region::ApNortheast3, Region::ApSoutheast1,
        Region::ApSoutheast2, Region::CaCentral1, Region::EuCentral1, Region::EuWest1,
        Region::EuWest2, Region::EuWest3, Region::EuNorth1, Region::EuSouth1,
        Region::MeSouth1, Region::SaEast1, Region::UsGovEast1, Region::UsGovWest1,
    ];
    for r in regions {
        assert_eq!(Region::parse(r.id()), Ok(r));
        assert_eq!(r.endpoint(), format!("dynamodb.{}.amazonaws.com", r.id()));
    }
}
