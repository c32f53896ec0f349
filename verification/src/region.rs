//! The region table: a closed enumeration of supported regions, each with
//! its short identifier (used in signing scope strings) and its default
//! service endpoint. Lookups are total; parsing an unknown identifier fails.

use crate::chars::str_eq;
use crate::error::{ConfigError, Error};
use vstd::prelude::*;

verus! {

/// A supported region of the document store.
#[derive(Clone, Copy, Debug, PartialEq, Eq, Structural)]
pub enum Region {
    UsEast1,
    UsEast2,
    UsWest1,
    UsWest2,
    AfSouth1,
    ApEast1,
    ApSouth1,
    ApNortheast1,
    ApNortheast2,
    ApNortheast3,
    ApSoutheast1,
    ApSoutheast2,
    CaCentral1,
    EuCentral1,
    EuWest1,
    EuWest2,
    EuWest3,
    EuNorth1,
    EuSouth1,
    MeSouth1,
    SaEast1,
    UsGovEast1,
    UsGovWest1,
}

impl Region {
    /// The short region identifier.
    pub open spec fn id_spec(self) -> Seq<char> {
        match self {
            Region::UsEast1 => "us-east-1"@,
            Region::UsEast2 => "us-east-2"@,
            Region::UsWest1 => "us-west-1"@,
            Region::UsWest2 => "us-west-2"@,
            Region::AfSouth1 => "af-south-1"@,
            Region::ApEast1 => "ap-east-1"@,
            Region::ApSouth1 => "ap-south-1"@,
            Region::ApNortheast1 => "ap-northeast-1"@,
            Region::ApNortheast2 => "ap-northeast-2"@,
            Region::ApNortheast3 => "ap-northeast-3"@,
            Region::ApSoutheast1 => "ap-southeast-1"@,
            Region::ApSoutheast2 => "ap-southeast-2"@,
            Region::CaCentral1 => "ca-central-1"@,
            Region::EuCentral1 => "eu-central-1"@,
            Region::EuWest1 => "eu-west-1"@,
            Region::EuWest2 => "eu-west-2"@,
            Region::EuWest3 => "eu-west-3"@,
            Region::EuNorth1 => "eu-north-1"@,
            Region::EuSouth1 => "eu-south-1"@,
            Region::MeSouth1 => "me-south-1"@,
            Region::SaEast1 => "sa-east-1"@,
            Region::UsGovEast1 => "us-gov-east-1"@,
            Region::UsGovWest1 => "us-gov-west-1"@,
        }
    }

    /// The short region identifier, as used in signing scope strings.
    pub fn id(&self) -> (s: &str)
        ensures
            s@ == self.id_spec(),
    {
        match self {
            Region::UsEast1 => "us-east-1",
            Region::UsEast2 => "us-east-2",
            Region::UsWest1 => "us-west-1",
            Region::UsWest2 => "us-west-2",
            Region::AfSouth1 => "af-south-1",
            Region::ApEast1 => "ap-east-1",
            Region::ApSouth1 => "ap-south-1",
            Region::ApNortheast1 => "ap-northeast-1",
            Region::ApNortheast2 => "ap-northeast-2",
            Region::ApNortheast3 => "ap-northeast-3",
            Region::ApSoutheast1 => "ap-southeast-1",
            Region::ApSoutheast2 => "ap-southeast-2",
            Region::CaCentral1 => "ca-central-1",
            Region::EuCentral1 => "eu-central-1",
            Region::EuWest1 => "eu-west-1",
            Region::EuWest2 => "eu-west-2",
            Region::EuWest3 => "eu-west-3",
            Region::EuNorth1 => "eu-north-1",
            Region::EuSouth1 => "eu-south-1",
            Region::MeSouth1 => "me-south-1",
            Region::SaEast1 => "sa-east-1",
            Region::UsGovEast1 => "us-gov-east-1",
            Region::UsGovWest1 => "us-gov-west-1",
        }
    }

    /// The default service endpoint host for the region.
    pub open spec fn endpoint_spec(self) -> Seq<char> {
        match self {
            Region::UsEast1 => "dynamodb.us-east-1.amazonaws.com"@,
            Region::UsEast2 => "dynamodb.us-east-2.amazonaws.com"@,
            Region::UsWest1 => "dynamodb.us-west-1.amazonaws.com"@,
            Region::UsWest2 => "dynamodb.us-west-2.amazonaws.com"@,
            Region::AfSouth1 => "dynamodb.af-south-1.amazonaws.com"@,
            Region::ApEast1 => "dynamodb.ap-east-1.amazonaws.com"@,
            Region::ApSouth1 => "dynamodb.ap-south-1.amazonaws.com"@,
            Region::ApNortheast1 => "dynamodb.ap-northeast-1.amazonaws.com"@,
            Region::ApNortheast2 => "dynamodb.ap-northeast-2.amazonaws.com"@,
            Region::ApNortheast3 => "dynamodb.ap-northeast-3.amazonaws.com"@,
            Region::ApSoutheast1 => "dynamodb.ap-southeast-1.amazonaws.com"@,
            Region::ApSoutheast2 => "dynamodb.ap-southeast-2.amazonaws.com"@,
            Region::CaCentral1 => "dynamodb.ca-central-1.amazonaws.com"@,
            Region::EuCentral1 => "dynamodb.eu-central-1.amazonaws.com"@,
            Region::EuWest1 => "dynamodb.eu-west-1.amazonaws.com"@,
            Region::EuWest2 => "dynamodb.eu-west-2.amazonaws.com"@,
            Region::EuWest3 => "dynamodb.eu-west-3.amazonaws.com"@,
            Region::EuNorth1 => "dynamodb.eu-north-1.amazonaws.com"@,
            Region::EuSouth1 => "dynamodb.eu-south-1.amazonaws.com"@,
            Region::MeSouth1 => "dynamodb.me-south-1.amazonaws.com"@,
            Region::SaEast1 => "dynamodb.sa-east-1.amazonaws.com"@,
            Region::UsGovEast1 => "dynamodb.us-gov-east-1.amazonaws.com"@,
            Region::UsGovWest1 => "dynamodb.us-gov-west-1.amazonaws.com"@,
        }
    }

    /// The default service endpoint host for the region.
    pub fn endpoint(&self) -> (s: &str)
        ensures
            s@ == self.endpoint_spec(),
    {
        match self {
            Region::UsEast1 => "dynamodb.us-east-1.amazonaws.com",
            Region::UsEast2 => "dynamodb.us-east-2.amazonaws.com",
            Region::UsWest1 => "dynamodb.us-west-1.amazonaws.com",
            Region::UsWest2 => "dynamodb.us-west-2.amazonaws.com",
            Region::AfSouth1 => "dynamodb.af-south-1.amazonaws.com",
            Region::ApEast1 => "dynamodb.ap-east-1.amazonaws.com",
            Region::ApSouth1 => "dynamodb.ap-south-1.amazonaws.com",
            Region::ApNortheast1 => "dynamodb.ap-northeast-1.amazonaws.com",
            Region::ApNortheast2 => "dynamodb.ap-northeast-2.amazonaws.com",
            Region::ApNortheast3 => "dynamodb.ap-northeast-3.amazonaws.com",
            Region::ApSoutheast1 => "dynamodb.ap-southeast-1.amazonaws.com",
            Region::ApSoutheast2 => "dynamodb.ap-southeast-2.amazonaws.com",
            Region::CaCentral1 => "dynamodb.ca-central-1.amazonaws.com",
            Region::EuCentral1 => "dynamodb.eu-central-1.amazonaws.com",
            Region::EuWest1 => "dynamodb.eu-west-1.amazonaws.com",
            Region::EuWest2 => "dynamodb.eu-west-2.amazonaws.com",
            Region::EuWest3 => "dynamodb.eu-west-3.amazonaws.com",
            Region::EuNorth1 => "dynamodb.eu-north-1.amazonaws.com",
            Region::EuSouth1 => "dynamodb.eu-south-1.amazonaws.com",
            Region::MeSouth1 => "dynamodb.me-south-1.amazonaws.com",
            Region::SaEast1 => "dynamodb.sa-east-1.amazonaws.com",
            Region::UsGovEast1 => "dynamodb.us-gov-east-1.amazonaws.com",
            Region::UsGovWest1 => "dynamodb.us-gov-west-1.amazonaws.com",
        }
    }

    /// Which region, if any, a string identifies.
    pub open spec fn parse_spec(s: Seq<char>) -> Option<Region> {
        if s == "us-east-1"@ {
            Some(Region::UsEast1)
        } else if s == "us-east-2"@ {
            Some(Region::UsEast2)
        } else if s == "us-west-1"@ {
            Some(Region::UsWest1)
        } else if s == "us-west-2"@ {
            Some(Region::UsWest2)
        } else if s == "af-south-1"@ {
            Some(Region::AfSouth1)
        } else if s == "ap-east-1"@ {
            Some(Region::ApEast1)
        } else if s == "ap-south-1"@ {
            Some(Region::ApSouth1)
        } else if s == "ap-northeast-1"@ {
            Some(Region::ApNortheast1)
        } else if s == "ap-northeast-2"@ {
            Some(Region::ApNortheast2)
        } else if s == "ap-northeast-3"@ {
            Some(Region::ApNortheast3)
        } else if s == "ap-southeast-1"@ {
            Some(Region::ApSoutheast1)
        } else if s == "ap-southeast-2"@ {
            Some(Region::ApSoutheast2)
        } else if s == "ca-central-1"@ {
            Some(Region::CaCentral1)
        } else if s == "eu-central-1"@ {
            Some(Region::EuCentral1)
        } else if s == "eu-west-1"@ {
            Some(Region::EuWest1)
        } else if s == "eu-west-2"@ {
            Some(Region::EuWest2)
        } else if s == "eu-west-3"@ {
            Some(Region::EuWest3)
        } else if s == "eu-north-1"@ {
            Some(Region::EuNorth1)
        } else if s == "eu-south-1"@ {
            Some(Region::EuSouth1)
        } else if s == "me-south-1"@ {
            Some(Region::MeSouth1)
        } else if s == "sa-east-1"@ {
            Some(Region::SaEast1)
        } else if s == "us-gov-east-1"@ {
            Some(Region::UsGovEast1)
        } else if s == "us-gov-west-1"@ {
            Some(Region::UsGovWest1)
        } else {
            None
        }
    }

    /// Parses a region from its short identifier; unknown input is
    /// rejected strictly, with no fuzzy matching, as a configuration error
    /// carrying the rejected string.
    pub fn parse(s: &str) -> (r: Result<Region, Error>)
        ensures
            match Region::parse_spec(s@) {
                Some(region) => r == Ok::<Region, Error>(region),
                None => {
                    &&& r matches Err(e)
                    &&& e matches Error::Config(c)
                    &&& c matches ConfigError::UnknownRegion(u)
                    &&& u@ == s@
                },
            },
    {
        if str_eq(s, "us-east-1") {
            Ok(Region::UsEast1)
        } else if str_eq(s, "us-east-2") {
            Ok(Region::UsEast2)
        } else if str_eq(s, "us-west-1") {
            Ok(Region::UsWest1)
        } else if str_eq(s, "us-west-2") {
            Ok(Region::UsWest2)
        } else if str_eq(s, "af-south-1") {
            Ok(Region::AfSouth1)
        } else if str_eq(s, "ap-east-1") {
            Ok(Region::ApEast1)
        } else if str_eq(s, "ap-south-1") {
            Ok(Region::ApSouth1)
        } else if str_eq(s, "ap-northeast-1") {
            Ok(Region::ApNortheast1)
        } else if str_eq(s, "ap-northeast-2") {
            Ok(Region::ApNortheast2)
        } else if str_eq(s, "ap-northeast-3") {
            Ok(Region::ApNortheast3)
        } else if str_eq(s, "ap-southeast-1") {
            Ok(Region::ApSoutheast1)
        } else if str_eq(s, "ap-southeast-2") {
            Ok(Region::ApSoutheast2)
        } else if str_eq(s, "ca-central-1") {
            Ok(Region::CaCentral1)
        } else if str_eq(s, "eu-central-1") {
            Ok(Region::EuCentral1)
        } else if str_eq(s, "eu-west-1") {
            Ok(Region::EuWest1)
        } else if str_eq(s, "eu-west-2") {
            Ok(Region::EuWest2)
        } else if str_eq(s, "eu-west-3") {
            Ok(Region::EuWest3)
        } else if str_eq(s, "eu-north-1") {
            Ok(Region::EuNorth1)
        } else if str_eq(s, "eu-south-1") {
            Ok(Region::EuSouth1)
        } else if str_eq(s, "me-south-1") {
            Ok(Region::MeSouth1)
        } else if str_eq(s, "sa-east-1") {
            Ok(Region::SaEast1)
        } else if str_eq(s, "us-gov-east-1") {
            Ok(Region::UsGovEast1)
        } else if str_eq(s, "us-gov-west-1") {
            Ok(Region::UsGovWest1)
        } else {
            Err(Error::Config(ConfigError::UnknownRegion(s.to_owned())))
        }
    }
}

/// Parsing a region's own identifier gives that region back: the region
/// table's two lookups and the parser agree on the whole enumeration.
#[verifier::rlimit(100)]
pub proof fn lemma_region_parse_round_trip(r: Region)
    ensures
        Region::parse_spec(r.id_spec()) == Some(r),
{
    reveal_strlit("us-east-1");
    reveal_strlit("us-east-2");
    reveal_strlit("us-west-1");
    reveal_strlit("us-west-2");
    reveal_strlit("af-south-1");
    reveal_strlit("ap-east-1");
    reveal_strlit("ap-south-1");
    reveal_strlit("ap-northeast-1");
    reveal_strlit("ap-northeast-2");
    reveal_strlit("ap-northeast-3");
    reveal_strlit("ap-southeast-1");
    reveal_strlit("ap-southeast-2");
    reveal_strlit("ca-central-1");
    reveal_strlit("eu-central-1");
    reveal_strlit("eu-west-1");
    reveal_strlit("eu-west-2");
    reveal_strlit("eu-west-3");
    reveal_strlit("eu-north-1");
    reveal_strlit("eu-south-1");
    reveal_strlit("me-south-1");
    reveal_strlit("sa-east-1");
    reveal_strlit("us-gov-east-1");
    reveal_strlit("us-gov-west-1");
    match r {
        Region::UsEast1 => {
        },
        Region::UsEast2 => {
            assert(("us-east-2"@)[8] != ("us-east-1"@)[8]);
        },
        Region::UsWest1 => {
            assert(("us-west-1"@)[3] != ("us-east-1"@)[3]);
            assert(("us-west-1"@)[3] != ("us-east-2"@)[3]);
        },
        Region::UsWest2 => {
            assert(("us-west-2"@)[3] != ("us-east-1"@)[3]);
            assert(("us-west-2"@)[3] != ("us-east-2"@)[3]);
            assert(("us-west-2"@)[8] != ("us-west-1"@)[8]);
        },
        Region::AfSouth1 => {
            assert(("af-south-1"@).len() != ("us-east-1"@).len());
            assert(("af-south-1"@).len() != ("us-east-2"@).len());
            assert(("af-south-1"@).len() != ("us-west-1"@).len());
            assert(("af-south-1"@).len() != ("us-west-2"@).len());
        },
        Region::ApEast1 => {
            assert(("ap-east-1"@)[0] != ("us-east-1"@)[0]);
            assert(("ap-east-1"@)[0] != ("us-east-2"@)[0]);
            assert(("ap-east-1"@)[0] != ("us-west-1"@)[0]);
            assert(("ap-east-1"@)[0] != ("us-west-2"@)[0]);
            assert(("ap-east-1"@).len() != ("af-south-1"@).len());
        },
        Region::ApSouth1 => {
            assert(("ap-south-1"@).len() != ("us-east-1"@).len());
            assert(("ap-south-1"@).len() != ("us-east-2"@).len());
            assert(("ap-south-1"@).len() != ("us-west-1"@).len());
            assert(("ap-south-1"@).len() != ("us-west-2"@).len());
            assert(("ap-south-1"@)[1] != ("af-south-1"@)[1]);
            assert(("ap-south-1"@).len() != ("ap-east-1"@).len());
        },
        Region::ApNortheast1 => {
            assert(("ap-northeast-1"@).len() != ("us-east-1"@).len());
            assert(("ap-northeast-1"@).len() != ("us-east-2"@).len());
            assert(("ap-northeast-1"@).len() != ("us-west-1"@).len());
            assert(("ap-northeast-1"@).len() != ("us-west-2"@).len());
            assert(("ap-northeast-1"@).len() != ("af-south-1"@).len());
            assert(("ap-northeast-1"@).len() != ("ap-east-1"@).len());
            assert(("ap-northeast-1"@).len() != ("ap-south-1"@).len());
        },
        Region::ApNortheast2 => {
            assert(("ap-northeast-2"@).len() != ("us-east-1"@).len());
            assert(("ap-northeast-2"@).len() != ("us-east-2"@).len());
            assert(("ap-northeast-2"@).len() != ("us-west-1"@).len());
            assert(("ap-northeast-2"@).len() != ("us-west-2"@).len());
            assert(("ap-northeast-2"@).len() != ("af-south-1"@).len());
            assert(("ap-northeast-2"@).len() != ("ap-east-1"@).len());
            assert(("ap-northeast-2"@).len() != ("ap-south-1"@).len());
            assert(("ap-northeast-2"@)[13] != ("ap-northeast-1"@)[13]);
        },
        Region::ApNortheast3 => {
            assert(("ap-northeast-3"@).len() != ("us-east-1"@).len());
            assert(("ap-northeast-3"@).len() != ("us-east-2"@).len());
            assert(("ap-northeast-3"@).len() != ("us-west-1"@).len());
            assert(("ap-northeast-3"@).len() != ("us-west-2"@).len());
            assert(("ap-northeast-3"@).len() != ("af-south-1"@).len());
            assert(("ap-northeast-3"@).len() != ("ap-east-1"@).len());
            assert(("ap-northeast-3"@).len() != ("ap-south-1"@).len());
            assert(("ap-northeast-3"@)[13] != ("ap-northeast-1"@)[13]);
            assert(("ap-northeast-3"@)[13] != ("ap-northeast-2"@)[13]);
        },
        Region::ApSoutheast1 => {
            assert(("ap-southeast-1"@).len() != ("us-east-1"@).len());
            assert(("ap-southeast-1"@).len() != ("us-east-2"@).len());
            assert(("ap-southeast-1"@).len() != ("us-west-1"@).len());
            assert(("ap-southeast-1"@).len() != ("us-west-2"@).len());
            assert(("ap-southeast-1"@).len() != ("af-south-1"@).len());
            assert(("ap-southeast-1"@).len() != ("ap-east-1"@).len());
            assert(("ap-southeast-1"@).len() != ("ap-south-1"@).len());
            assert(("ap-southeast-1"@)[3] != ("ap-northeast-1"@)[3]);
            assert(("ap-southeast-1"@)[3] != ("ap-northeast-2"@)[3]);
            assert(("ap-southeast-1"@)[3] != ("ap-northeast-3"@)[3]);
        },
        Region::ApSoutheast2 => {
            assert(("ap-southeast-2"@).len() != ("us-east-1"@).len());
            assert(("ap-southeast-2"@).len() != ("us-east-2"@).len());
            assert(("ap-southeast-2"@).len() != ("us-west-1"@).len());
            assert(("ap-southeast-2"@).len() != ("us-west-2"@).len());
            assert(("ap-southeast-2"@).len() != ("af-south-1"@).len());
            assert(("ap-southeast-2"@).len() != ("ap-east-1"@).len());
            assert(("ap-southeast-2"@).len() != ("ap-south-1"@).len());
            assert(("ap-southeast-2"@)[3] != ("ap-northeast-1"@)[3]);
            assert(("ap-southeast-2"@)[3] != ("ap-northeast-2"@)[3]);
            assert(("ap-southeast-2"@)[3] != ("ap-northeast-3"@)[3]);
            assert(("ap-southeast-2"@)[13] != ("ap-southeast-1"@)[13]);
        },
        Region::CaCentral1 => {
            assert(("ca-central-1"@).len() != ("us-east-1"@).len());
            assert(("ca-central-1"@).len() != ("us-east-2"@).len());
            assert(("ca-central-1"@).len() != ("us-west-1"@).len());
            assert(("ca-central-1"@).len() != ("us-west-2"@).len());
            assert(("ca-central-1"@).len() != ("af-south-1"@).len());
            assert(("ca-central-1"@).len() != ("ap-east-1"@).len());
            assert(("ca-central-1"@).len() != ("ap-south-1"@).len());
            assert(("ca-central-1"@).len() != ("ap-northeast-1"@).len());
            assert(("ca-central-1"@).len() != ("ap-northeast-2"@).len());
            assert(("ca-central-1"@).len() != ("ap-northeast-3"@).len());
            assert(("ca-central-1"@).len() != ("ap-southeast-1"@).len());
            assert(("ca-central-1"@).len() != ("ap-southeast-2"@).len());
        },
        Region::EuCentral1 => {
            assert(("eu-central-1"@).len() != ("us-east-1"@).len());
            assert(("eu-central-1"@).len() != ("us-east-2"@).len());
            assert(("eu-central-1"@).len() != ("us-west-1"@).len());
            assert(("eu-central-1"@).len() != ("us-west-2"@).len());
            assert(("eu-central-1"@).len() != ("af-south-1"@).len());
            assert(("eu-central-1"@).len() != ("ap-east-1"@).len());
            assert(("eu-central-1"@).len() != ("ap-south-1"@).len());
            assert(("eu-central-1"@).len() != ("ap-northeast-1"@).len());
            assert(("eu-central-1"@).len() != ("ap-northeast-2"@).len());
            assert(("eu-central-1"@).len() != ("ap-northeast-3"@).len());
            assert(("eu-central-1"@).len() != ("ap-southeast-1"@).len());
            assert(("eu-central-1"@).len() != ("ap-southeast-2"@).len());
            assert(("eu-central-1"@)[0] != ("ca-central-1"@)[0]);
        },
        Region::EuWest1 => {
            assert(("eu-west-1"@)[0] != ("us-east-1"@)[0]);
            assert(("eu-west-1"@)[0] != ("us-east-2"@)[0]);
            assert(("eu-west-1"@)[0] != ("us-west-1"@)[0]);
            assert(("eu-west-1"@)[0] != ("us-west-2"@)[0]);
            assert(("eu-west-1"@).len() != ("af-south-1"@).len());
            assert(("eu-west-1"@)[0] != ("ap-east-1"@)[0]);
            assert(("eu-west-1"@).len() != ("ap-south-1"@).len());
            assert(("eu-west-1"@).len() != ("ap-northeast-1"@).len());
            assert(("eu-west-1"@).len() != ("ap-northeast-2"@).len());
            assert(("eu-west-1"@).len() != ("ap-northeast-3"@).len());
            assert(("eu-west-1"@).len() != ("ap-southeast-1"@).len());
            assert(("eu-west-1"@).len() != ("ap-southeast-2"@).len());
            assert(("eu-west-1"@).len() != ("ca-central-1"@).len());
            assert(("eu-west-1"@).len() != ("eu-central-1"@).len());
        },
        Region::EuWest2 => {
            assert(("eu-west-2"@)[0] != ("us-east-1"@)[0]);
            assert(("eu-west-2"@)[0] != ("us-east-2"@)[0]);
            assert(("eu-west-2"@)[0] != ("us-west-1"@)[0]);
            assert(("eu-west-2"@)[0] != ("us-west-2"@)[0]);
            assert(("eu-west-2"@).len() != ("af-south-1"@).len());
            assert(("eu-west-2"@)[0] != ("ap-east-1"@)[0]);
            assert(("eu-west-2"@).len() != ("ap-south-1"@).len());
            assert(("eu-west-2"@).len() != ("ap-northeast-1"@).len());
            assert(("eu-west-2"@).len() != ("ap-northeast-2"@).len());
            assert(("eu-west-2"@).len() != ("ap-northeast-3"@).len());
            assert(("eu-west-2"@).len() != ("ap-southeast-1"@).len());
            assert(("eu-west-2"@).len() != ("ap-southeast-2"@).len());
            assert(("eu-west-2"@).len() != ("ca-central-1"@).len());
            assert(("eu-west-2"@).len() != ("eu-central-1"@).len());
            assert(("eu-west-2"@)[8] != ("eu-west-1"@)[8]);
        },
        Region::EuWest3 => {
            assert(("eu-west-3"@)[0] != ("us-east-1"@)[0]);
            assert(("eu-west-3"@)[0] != ("us-east-2"@)[0]);
            assert(("eu-west-3"@)[0] != ("us-west-1"@)[0]);
            assert(("eu-west-3"@)[0] != ("us-west-2"@)[0]);
            assert(("eu-west-3"@).len() != ("af-south-1"@).len());
            assert(("eu-west-3"@)[0] != ("ap-east-1"@)[0]);
            assert(("eu-west-3"@).len() != ("ap-south-1"@).len());
            assert(("eu-west-3"@).len() != ("ap-northeast-1"@).len());
            assert(("eu-west-3"@).len() != ("ap-northeast-2"@).len());
            assert(("eu-west-3"@).len() != ("ap-northeast-3"@).len());
            assert(("eu-west-3"@).len() != ("ap-southeast-1"@).len());
            assert(("eu-west-3"@).len() != ("ap-southeast-2"@).len());
            assert(("eu-west-3"@).len() != ("ca-central-1"@).len());
            assert(("eu-west-3"@).len() != ("eu-central-1"@).len());
            assert(("eu-west-3"@)[8] != ("eu-west-1"@)[8]);
            assert(("eu-west-3"@)[8] != ("eu-west-2"@)[8]);
        },
        Region::EuNorth1 => {
            assert(("eu-north-1"@).len() != ("us-east-1"@).len());
            assert(("eu-north-1"@).len() != ("us-east-2"@).len());
            assert(("eu-north-1"@).len() != ("us-west-1"@).len());
            assert(("eu-north-1"@).len() != ("us-west-2"@).len());
            assert(("eu-north-1"@)[0] != ("af-south-1"@)[0]);
            assert(("eu-north-1"@).len() != ("ap-east-1"@).len());
            assert(("eu-north-1"@)[0] != ("ap-south-1"@)[0]);
            assert(("eu-north-1"@).len() != ("ap-northeast-1"@).len());
            assert(("eu-north-1"@).len() != ("ap-northeast-2"@).len());
            assert(("eu-north-1"@).len() != ("ap-northeast-3"@).len());
            assert(("eu-north-1"@).len() != ("ap-southeast-1"@).len());
            assert(("eu-north-1"@).len() != ("ap-southeast-2"@).len());
            assert(("eu-north-1"@).len() != ("ca-central-1"@).len());
            assert(("eu-north-1"@).len() != ("eu-central-1"@).len());
            assert(("eu-north-1"@).len() != ("eu-west-1"@).len());
            assert(("eu-north-1"@).len() != ("eu-west-2"@).len());
            assert(("eu-north-1"@).len() != ("eu-west-3"@).len());
        },
        Region::EuSouth1 => {
            assert(("eu-south-1"@).len() != ("us-east-1"@).len());
            assert(("eu-south-1"@).len() != ("us-east-2"@).len());
            assert(("eu-south-1"@).len() != ("us-west-1"@).len());
            assert(("eu-south-1"@).len() != ("us-west-2"@).len());
            assert(("eu-south-1"@)[0] != ("af-south-1"@)[0]);
            assert(("eu-south-1"@).len() != ("ap-east-1"@).len());
            assert(("eu-south-1"@)[0] != ("ap-south-1"@)[0]);
            assert(("eu-south-1"@).len() != ("ap-northeast-1"@).len());
            assert(("eu-south-1"@).len() != ("ap-northeast-2"@).len());
            assert(("eu-south-1"@).len() != ("ap-northeast-3"@).len());
            assert(("eu-south-1"@).len() != ("ap-southeast-1"@).len());
            assert(("eu-south-1"@).len() != ("ap-southeast-2"@).len());
            assert(("eu-south-1"@).len() != ("ca-central-1"@).len());
            assert(("eu-south-1"@).len() != ("eu-central-1"@).len());
            assert(("eu-south-1"@).len() != ("eu-west-1"@).len());
            assert(("eu-south-1"@).len() != ("eu-west-2"@).len());
            assert(("eu-south-1"@).len() != ("eu-west-3"@).len());
            assert(("eu-south-1"@)[3] != ("eu-north-1"@)[3]);
        },
        Region::MeSouth1 => {
            assert(("me-south-1"@).len() != ("us-east-1"@).len());
            assert(("me-south-1"@).len() != ("us-east-2"@).len());
            assert(("me-south-1"@).len() != ("us-west-1"@).len());
            assert(("me-south-1"@).len() != ("us-west-2"@).len());
            assert(("me-south-1"@)[0] != ("af-south-1"@)[0]);
            assert(("me-south-1"@).len() != ("ap-east-1"@).len());
            assert(("me-south-1"@)[0] != ("ap-south-1"@)[0]);
            assert(("me-south-1"@).len() != ("ap-northeast-1"@).len());
            assert(("me-south-1"@).len() != ("ap-northeast-2"@).len());
            assert(("me-south-1"@).len() != ("ap-northeast-3"@).len());
            assert(("me-south-1"@).len() != ("ap-southeast-1"@).len());
            assert(("me-south-1"@).len() != ("ap-southeast-2"@).len());
            assert(("me-south-1"@).len() != ("ca-central-1"@).len());
            assert(("me-south-1"@).len() != ("eu-central-1"@).len());
            assert(("me-south-1"@).len() != ("eu-west-1"@).len());
            assert(("me-south-1"@).len() != ("eu-west-2"@).len());
            assert(("me-south-1"@).len() != ("eu-west-3"@).len());
            assert(("me-south-1"@)[0] != ("eu-north-1"@)[0]);
            assert(("me-south-1"@)[0] != ("eu-south-1"@)[0]);
        },
        Region::SaEast1 => {
            assert(("sa-east-1"@)[0] != ("us-east-1"@)[0]);
            assert(("sa-east-1"@)[0] != ("us-east-2"@)[0]);
            assert(("sa-east-1"@)[0] != ("us-west-1"@)[0]);
            assert(("sa-east-1"@)[0] != ("us-west-2"@)[0]);
            assert(("sa-east-1"@).len() != ("af-south-1"@).len());
            assert(("sa-east-1"@)[0] != ("ap-east-1"@)[0]);
            assert(("sa-east-1"@).len() != ("ap-south-1"@).len());
            assert(("sa-east-1"@).len() != ("ap-northeast-1"@).len());
            assert(("sa-east-1"@).len() != ("ap-northeast-2"@).len());
            assert(("sa-east-1"@).len() != ("ap-northeast-3"@).len());
            assert(("sa-east-1"@).len() != ("ap-southeast-1"@).len());
            assert(("sa-east-1"@).len() != ("ap-southeast-2"@).len());
            assert(("sa-east-1"@).len() != ("ca-central-1"@).len());
            assert(("sa-east-1"@).len() != ("eu-central-1"@).len());
            assert(("sa-east-1"@)[0] != ("eu-west-1"@)[0]);
            assert(("sa-east-1"@)[0] != ("eu-west-2"@)[0]);
            assert(("sa-east-1"@)[0] != ("eu-west-3"@)[0]);
            assert(("sa-east-1"@).len() != ("eu-north-1"@).len());
            assert(("sa-east-1"@).len() != ("eu-south-1"@).len());
            assert(("sa-east-1"@).len() != ("me-south-1"@).len());
        },
        Region::UsGovEast1 => {
            assert(("us-gov-east-1"@).len() != ("us-east-1"@).len());
            assert(("us-gov-east-1"@).len() != ("us-east-2"@).len());
            assert(("us-gov-east-1"@).len() != ("us-west-1"@).len());
            assert(("us-gov-east-1"@).len() != ("us-west-2"@).len());
            assert(("us-gov-east-1"@).len() != ("af-south-1"@).len());
            assert(("us-gov-east-1"@).len() != ("ap-east-1"@).len());
            assert(("us-gov-east-1"@).len() != ("ap-south-1"@).len());
            assert(("us-gov-east-1"@).len() != ("ap-northeast-1"@).len());
            assert(("us-gov-east-1"@).len() != ("ap-northeast-2"@).len());
            assert(("us-gov-east-1"@).len() != ("ap-northeast-3"@).len());
            assert(("us-gov-east-1"@).len() != ("ap-southeast-1"@).len());
            assert(("us-gov-east-1"@).len() != ("ap-southeast-2"@).len());
            assert(("us-gov-east-1"@).len() != ("ca-central-1"@).len());
            assert(("us-gov-east-1"@).len() != ("eu-central-1"@).len());
            assert(("us-gov-east-1"@).len() != ("eu-west-1"@).len());
            assert(("us-gov-east-1"@).len() != ("eu-west-2"@).len());
            assert(("us-gov-east-1"@).len() != ("eu-west-3"@).len());
            assert(("us-gov-east-1"@).len() != ("eu-north-1"@).len());
            assert(("us-gov-east-1"@).len() != ("eu-south-1"@).len());
            assert(("us-gov-east-1"@).len() != ("me-south-1"@).len());
            assert(("us-gov-east-1"@).len() != ("sa-east-1"@).len());
        },
        Region::UsGovWest1 => {
            assert(("us-gov-west-1"@).len() != ("us-east-1"@).len());
            assert(("us-gov-west-1"@).len() != ("us-east-2"@).len());
            assert(("us-gov-west-1"@).len() != ("us-west-1"@).len());
            assert(("us-gov-west-1"@).len() != ("us-west-2"@).len());
            assert(("us-gov-west-1"@).len() != ("af-south-1"@).len());
            assert(("us-gov-west-1"@).len() != ("ap-east-1"@).len());
            assert(("us-gov-west-1"@).len() != ("ap-south-1"@).len());
            assert(("us-gov-west-1"@).len() != ("ap-northeast-1"@).len());
            assert(("us-gov-west-1"@).len() != ("ap-northeast-2"@).len());
            assert(("us-gov-west-1"@).len() != ("ap-northeast-3"@).len());
            assert(("us-gov-west-1"@).len() != ("ap-southeast-1"@).len());
            assert(("us-gov-west-1"@).len() != ("ap-southeast-2"@).len());
            assert(("us-gov-west-1"@).len() != ("ca-central-1"@).len());
            assert(("us-gov-west-1"@).len() != ("eu-central-1"@).len());
            assert(("us-gov-west-1"@).len() != ("eu-west-1"@).len());
            assert(("us-gov-west-1"@).len() != ("eu-west-2"@).len());
            assert(("us-gov-west-1"@).len() != ("eu-west-3"@).len());
            assert(("us-gov-west-1"@).len() != ("eu-north-1"@).len());
            assert(("us-gov-west-1"@).len() != ("eu-south-1"@).len());
            assert(("us-gov-west-1"@).len() != ("me-south-1"@).len());
            assert(("us-gov-west-1"@).len() != ("sa-east-1"@).len());
            assert(("us-gov-west-1"@)[7] != ("us-gov-east-1"@)[7]);
        },
    }
}

/// Every region's endpoint is the service prefix, the region's identifier,
/// and the service domain suffix.
#[verifier::rlimit(100)]
pub proof fn lemma_region_endpoint_shape(r: Region)
    ensures
        r.endpoint_spec() == "dynamodb."@ + r.id_spec() + ".amazonaws.com"@,
{
    reveal_strlit("us-east-1");
    reveal_strlit("us-east-2");
    reveal_strlit("us-west-1");
    reveal_strlit("us-west-2");
    reveal_strlit("af-south-1");
    reveal_strlit("ap-east-1");
    reveal_strlit("ap-south-1");
    reveal_strlit("ap-northeast-1");
    reveal_strlit("ap-northeast-2");
    reveal_strlit("ap-northeast-3");
    reveal_strlit("ap-southeast-1");
    reveal_strlit("ap-southeast-2");
    reveal_strlit("ca-central-1");
    reveal_strlit("eu-central-1");
    reveal_strlit("eu-west-1");
    reveal_strlit("eu-west-2");
    reveal_strlit("eu-west-3");
    reveal_strlit("eu-north-1");
    reveal_strlit("eu-south-1");
    reveal_strlit("me-south-1");
    reveal_strlit("sa-east-1");
    reveal_strlit("us-gov-east-1");
    reveal_strlit("us-gov-west-1");
    reveal_strlit("dynamodb.us-east-1.amazonaws.com");
    reveal_strlit("dynamodb.us-east-2.amazonaws.com");
    reveal_strlit("dynamodb.us-west-1.amazonaws.com");
    reveal_strlit("dynamodb.us-west-2.amazonaws.com");
    reveal_strlit("dynamodb.af-south-1.amazonaws.com");
    reveal_strlit("dynamodb.ap-east-1.amazonaws.com");
    reveal_strlit("dynamodb.ap-south-1.amazonaws.com");
    reveal_strlit("dynamodb.ap-northeast-1.amazonaws.com");
    reveal_strlit("dynamodb.ap-northeast-2.amazonaws.com");
    reveal_strlit("dynamodb.ap-northeast-3.amazonaws.com");
    reveal_strlit("dynamodb.ap-southeast-1.amazonaws.com");
    reveal_strlit("dynamodb.ap-southeast-2.amazonaws.com");
    reveal_strlit("dynamodb.ca-central-1.amazonaws.com");
    reveal_strlit("dynamodb.eu-central-1.amazonaws.com");
    reveal_strlit("dynamodb.eu-west-1.amazonaws.com");
    reveal_strlit("dynamodb.eu-west-2.amazonaws.com");
    reveal_strlit("dynamodb.eu-west-3.amazonaws.com");
    reveal_strlit("dynamodb.eu-north-1.amazonaws.com");
    reveal_strlit("dynamodb.eu-south-1.amazonaws.com");
    reveal_strlit("dynamodb.me-south-1.amazonaws.com");
    reveal_strlit("dynamodb.sa-east-1.amazonaws.com");
    reveal_strlit("dynamodb.us-gov-east-1.amazonaws.com");
    reveal_strlit("dynamodb.us-gov-west-1.amazonaws.com");
    reveal_strlit("dynamodb.");
    reveal_strlit(".amazonaws.com");
    match r {
        Region::UsEast1 => {
            assert(r.endpoint_spec() =~= "dynamodb."@ + r.id_spec() + ".amazonaws.com"@);
        },
        Region::UsEast2 => {
            assert(r.endpoint_spec() =~= "dynamodb."@ + r.id_spec() + ".amazonaws.com"@);
        },
        Region::UsWest1 => {
            assert(r.endpoint_spec() =~= "dynamodb."@ + r.id_spec() + ".amazonaws.com"@);
        },
        Region::UsWest2 => {
            assert(r.endpoint_spec() =~= "dynamodb."@ + r.id_spec() + ".amazonaws.com"@);
        },
        Region::AfSouth1 => {
            assert(r.endpoint_spec() =~= "dynamodb."@ + r.id_spec() + ".amazonaws.com"@);
        },
        Region::ApEast1 => {
            assert(r.endpoint_spec() =~= "dynamodb."@ + r.id_spec() + ".amazonaws.com"@);
        },
        Region::ApSouth1 => {
            assert(r.endpoint_spec() =~= "dynamodb."@ + r.id_spec() + ".amazonaws.com"@);
        },
        Region::ApNortheast1 => {
            assert(r.endpoint_spec() =~= "dynamodb."@ + r.id_spec() + ".amazonaws.com"@);
        },
        Region::ApNortheast2 => {
            assert(r.endpoint_spec() =~= "dynamodb."@ + r.id_spec() + ".amazonaws.com"@);
        },
        Region::ApNortheast3 => {
            assert(r.endpoint_spec() =~= "dynamodb."@ + r.id_spec() + ".amazonaws.com"@);
        },
        Region::ApSoutheast1 => {
            assert(r.endpoint_spec() =~= "dynamodb."@ + r.id_spec() + ".amazonaws.com"@);
        },
        Region::ApSoutheast2 => {
            assert(r.endpoint_spec() =~= "dynamodb."@ + r.id_spec() + ".amazonaws.com"@);
        },
        Region::CaCentral1 => {
            assert(r.endpoint_spec() =~= "dynamodb."@ + r.id_spec() + ".amazonaws.com"@);
        },
        Region::EuCentral1 => {
            assert(r.endpoint_spec() =~= "dynamodb."@ + r.id_spec() + ".amazonaws.com"@);
        },
        Region::EuWest1 => {
            assert(r.endpoint_spec() =~= "dynamodb."@ + r.id_spec() + ".amazonaws.com"@);
        },
        Region::EuWest2 => {
            assert(r.endpoint_spec() =~= "dynamodb."@ + r.id_spec() + ".amazonaws.com"@);
        },
        Region::EuWest3 => {
            assert(r.endpoint_spec() =~= "dynamodb."@ + r.id_spec() + ".amazonaws.com"@);
        },
        Region::EuNorth1 => {
            assert(r.endpoint_spec() =~= "dynamodb."@ + r.id_spec() + ".amazonaws.com"@);
        },
        Region::EuSouth1 => {
            assert(r.endpoint_spec() =~= "dynamodb."@ + r.id_spec() + ".amazonaws.com"@);
        },
        Region::MeSouth1 => {
            assert(r.endpoint_spec() =~= "dynamodb."@ + r.id_spec() + ".amazonaws.com"@);
        },
        Region::SaEast1 => {
            assert(r.endpoint_spec() =~= "dynamodb."@ + r.id_spec() + ".amazonaws.com"@);
        },
        Region::UsGovEast1 => {
            assert(r.endpoint_spec() =~= "dynamodb."@ + r.id_spec() + ".amazonaws.com"@);
        },
        Region::UsGovWest1 => {
            assert(r.endpoint_spec() =~= "dynamodb."@ + r.id_spec() + ".amazonaws.com"@);
        },
    }
}

} // verus!
