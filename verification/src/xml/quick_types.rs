//! The `quick-xml` types that the library's signatures and fields name.
use vstd::prelude::*;

verus! {

#[verifier::external_type_specification]
#[verifier::external_body]
#[verifier::reject_recursive_types(R)]
pub struct ExNsReader<R>(quick_xml::reader::NsReader<R>);

#[verifier::external_type_specification]
#[verifier::external_body]
pub struct ExBytesStart<'a>(quick_xml::events::BytesStart<'a>);

#[verifier::external_type_specification]
#[verifier::external_body]
pub struct ExBytesEnd<'a>(quick_xml::events::BytesEnd<'a>);

#[verifier::external_type_specification]
#[verifier::external_body]
pub struct ExBytesText<'a>(quick_xml::events::BytesText<'a>);

#[verifier::external_type_specification]
#[verifier::external_body]
pub struct ExBytesCData<'a>(quick_xml::events::BytesCData<'a>);

#[verifier::external_type_specification]
#[verifier::external_body]
pub struct ExAttributes<'a>(quick_xml::events::attributes::Attributes<'a>);

#[verifier::external_type_specification]
#[verifier::external_body]
pub struct ExAttribute<'a>(quick_xml::events::attributes::Attribute<'a>);

#[verifier::external_type_specification]
#[verifier::external_body]
pub struct ExQuickXmlError(quick_xml::Error);

#[verifier::external_type_specification]
#[verifier::external_body]
pub struct ExAttrError(quick_xml::events::attributes::AttrError);

#[verifier::external_type_specification]
#[verifier::external_body]
pub struct ExResolveResult<'ns>(quick_xml::name::ResolveResult<'ns>);

#[verifier::external_type_specification]
#[verifier::external_body]
pub struct ExNamespaceBindingsIter<'a>(quick_xml::name::NamespaceBindingsIter<'a>);

#[verifier::external_type_specification]
#[verifier::external_body]
pub struct ExQuickNamespace<'a>(quick_xml::name::Namespace<'a>);

#[verifier::external_type_specification]
#[verifier::external_body]
pub struct ExPrefixDeclaration<'a>(quick_xml::name::PrefixDeclaration<'a>);

} // verus!
