//! Styleguide version validation: which runtime versions a styleguide
//! bundle exists for, and the version-specific name of its
//! type-declaration file.

use vstd::prelude::*;

use crate::text::str_eq;

verus! {

/// Why a styleguide request is refused.
#[derive(PartialEq, Eq, Structural, Debug, Clone, Copy)]
pub enum StyleguideError {
    /// The requested version tag names no known styleguide bundle.
    UnknownVersion,
}

/// The version-dependent part of a styleguide bundle.
#[derive(Debug)]
pub struct VersionAssets {
    pub dts_filename: String,
}

/// The type-declaration file name of a supported version's bundle, or
/// nothing for an unknown version tag.
pub open spec fn spec_dts_filename(version: Seq<char>) -> Option<Seq<char>> {
    if version == "v17"@ {
        Option::Some("ua_rt_device.d.ts"@)
    } else if version == "v18"@ {
        Option::Some("ua_rt_device_V18.d.ts"@)
    } else if version == "v19"@ {
        Option::Some("ua_rt_device_V19.d.ts"@)
    } else if version == "v20"@ {
        Option::Some("ua_rt_device_V20.d.ts"@)
    } else if version == "v21"@ {
        Option::Some("ua_rt_device_V21.d.ts"@)
    } else {
        Option::None
    }
}

/// Resolves a version tag to its styleguide bundle: exactly the five
/// known tags succeed, anything else is refused as unknown.
pub fn get_version_assets(version: &str) -> (r: Result<VersionAssets, StyleguideError>)
    ensures
        r is Ok <==> spec_dts_filename(version@) is Some,
        match r {
            Result::Ok(a) => spec_dts_filename(version@) == Option::Some(a.dts_filename@),
            Result::Err(e) => e == StyleguideError::UnknownVersion,
        },
{
    if str_eq(version, "v17") {
        Ok(VersionAssets { dts_filename: "ua_rt_device.d.ts".to_owned() })
    } else if str_eq(version, "v18") {
        Ok(VersionAssets { dts_filename: "ua_rt_device_V18.d.ts".to_owned() })
    } else if str_eq(version, "v19") {
        Ok(VersionAssets { dts_filename: "ua_rt_device_V19.d.ts".to_owned() })
    } else if str_eq(version, "v20") {
        Ok(VersionAssets { dts_filename: "ua_rt_device_V20.d.ts".to_owned() })
    } else if str_eq(version, "v21") {
        Ok(VersionAssets { dts_filename: "ua_rt_device_V21.d.ts".to_owned() })
    } else {
        Err(StyleguideError::UnknownVersion)
    }
}

} // verus!
