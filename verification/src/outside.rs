use vstd::prelude::*;

verus! {

#[verifier::external_type_specification]
#[verifier::external_body]
pub struct ExHttpError(reqwest::Error);

#[verifier::external_type_specification]
#[verifier::external_body]
pub struct ExResolveError(trust_dns_resolver::error::ResolveError);

#[verifier::external_type_specification]
#[verifier::external_body]
pub struct ExXmlError(serde_xml_rs::Error);

} // verus!
