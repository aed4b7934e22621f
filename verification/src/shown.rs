//! What is shown of values to people.
use std::fmt;
use vstd::prelude::*;

verus! {

#[verifier::external_type_specification]
#[verifier::external_body]
pub struct ExFormatter<'a>(std::fmt::Formatter<'a>);

#[verifier::external_type_specification]
#[verifier::external_body]
pub struct ExFormatError(std::fmt::Error);

/// `Debug::fmt`: shows a value.
///
/// Nothing is said of it. What has been shown, and whether there is room for more, is inside the
/// formatter.
#[verifier::external_body]
pub(crate) fn show<T: fmt::Debug>(value: &T, f: &mut fmt::Formatter<'_>) -> (shown: fmt::Result) {
    value.fmt(f)
}

/// The content of a message as it is shown.
#[derive(Debug)]
pub(crate) struct Content<'a> {
    #[allow(unused)]
    pub(crate) ty: &'a str,
    #[allow(unused)]
    pub(crate) data: &'a str,
}

} // verus!
