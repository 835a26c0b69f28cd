//! The errors of the JEV assessor.
use vstd::prelude::*;

verus! {

/// Why the JEV assessor failed, with the description of the failure that the
/// client, the configuration or the conversion gave.
pub enum JevError {
    MissingJevApiKey,
    ClientError(String),
    ConfigLoadError(String),
    EntryConversionError(String),
}

impl JevError {
    /// The text that the error displays.
    pub open spec fn message_spec(self) -> Seq<char> {
        match self {
            JevError::MissingJevApiKey => "Missing JEV API key"@,
            JevError::ClientError(e) => "JEV client error: "@ + e@,
            JevError::ConfigLoadError(e) => "Unable to load config: "@ + e@,
            JevError::EntryConversionError(e) => "unable to convert to Jev entry: "@ + e@,
        }
    }

    /// The text that the error displays.
    pub fn message(&self) -> (res: String)
        ensures
            res@ == self.message_spec(),
    {
        match self {
            JevError::MissingJevApiKey => String::from_str("Missing JEV API key"),
            JevError::ClientError(e) => String::from_str("JEV client error: ").concat(e.as_str()),
            JevError::ConfigLoadError(e) => String::from_str("Unable to load config: ").concat(
                e.as_str(),
            ),
            JevError::EntryConversionError(e) => String::from_str(
                "unable to convert to Jev entry: ",
            ).concat(e.as_str()),
        }
    }
}

} // verus!
