//! Error types of outside crates and of std that the library carries through
//! its own error enums. Each is declared without its fields: the library only
//! passes these values on.

use vstd::prelude::*;

verus! {

#[verifier::external_type_specification]
#[verifier::external_body]
pub struct ExIoError(std::io::Error);

#[verifier::external_type_specification]
#[verifier::external_body]
pub struct ExFromUtf8Error(std::string::FromUtf8Error);

#[verifier::external_type_specification]
#[verifier::external_body]
pub struct ExJsonError(serde_json::Error);

#[verifier::external_type_specification]
#[verifier::external_body]
pub struct ExHttpClientError(isahc::Error);

#[verifier::external_type_specification]
#[verifier::external_body]
pub struct ExHttpRequestError(isahc::http::Error);

#[verifier::external_type_specification]
#[verifier::external_body]
pub struct ExHtmlError(html_parser::Error);

#[verifier::external_type_specification]
#[verifier::external_body]
pub struct ExHtmlNode(html_parser::Node);

#[verifier::external_type_specification]
#[verifier::external_body]
pub struct ExDateParseError(chrono::ParseError);

}
