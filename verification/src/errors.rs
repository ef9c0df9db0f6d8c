//! The failures a collection pass can report.

use vstd::prelude::*;

verus! {

/// Everything that can go wrong while assembling a feature record.
///
/// Identifier and product-name failures come from the taxonomy, `SemverSplit`
/// from the version parser, and `InvalidNumber` from reading a numeric sysfs
/// attribute that does not hold a small decimal.
#[derive(Debug, Clone, Copy, PartialEq, Eq, Structural)]
pub enum FeatureError {
    UnknownDeviceId,
    UnknownProductName,
    SemverSplit,
    InvalidNumber,
}

impl FeatureError {
    /// A short description of the failure.
    pub fn message(&self) -> (r: String)
        ensures
            r@ == match *self {
                FeatureError::UnknownDeviceId => "unknown device id"@,
                FeatureError::UnknownProductName => "unknown product name"@,
                FeatureError::SemverSplit => "failed to split semver with dots"@,
                FeatureError::InvalidNumber => "invalid numeric attribute"@,
            },
    {
        match self {
            FeatureError::UnknownDeviceId => "unknown device id".to_owned(),
            FeatureError::UnknownProductName => "unknown product name".to_owned(),
            FeatureError::SemverSplit => "failed to split semver with dots".to_owned(),
            FeatureError::InvalidNumber => "invalid numeric attribute".to_owned(),
        }
    }
}

} // verus!
