//! Missing data in what a news source publishes.

use vstd::prelude::*;

verus! {

/// A piece of data that a source was required to give and did not.
#[derive(Debug)]
pub struct MissingData {
    /// Which data is missing.
    pub details: String,
}

/// The text that begins the message of a `MissingData`.
pub const MISSING_DATA_PREFIX: &'static str = "required data is missing: ";

impl MissingData {
    /// The message of this error: "required data is missing: " and the details.
    pub fn message(&self) -> (m: String)
        ensures
            m@ == MISSING_DATA_PREFIX@ + self.details@,
    {
        let mut m = MISSING_DATA_PREFIX.to_owned();
        m.append(self.details.as_str());
        m
    }
}

/// Turns an optional value that must be there into a result.
pub trait IsRequired<T>: Sized {
    /// The value, or a `MissingData` error naming what is missing (`details`).
    fn required(self, details: &str) -> Result<T, MissingData>;
}

impl<T> IsRequired<T> for Option<T> {
    fn required(self, details: &str) -> (r: Result<T, MissingData>)
        ensures
            match self {
                Some(v) => r == Ok::<T, MissingData>(v),
                None => r is Err && r->Err_0.details@ == details@,
            },
    {
        match self {
            Some(v) => Ok(v),
            None => Err(MissingData { details: details.to_owned() }),
        }
    }
}

} // verus!
