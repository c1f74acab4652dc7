//! The `xml-rs` types that the library's signatures and fields name.
use vstd::prelude::*;

verus! {

#[verifier::external_type_specification]
#[verifier::external_body]
#[verifier::reject_recursive_types(W)]
pub struct ExEventWriter<W>(::xml::writer::EventWriter<W>);

#[verifier::external_type_specification]
#[verifier::external_body]
pub struct ExParserConfig(::xml::reader::ParserConfig);

#[verifier::external_type_specification]
#[verifier::external_body]
pub struct ExEmitterConfig(::xml::writer::EmitterConfig);

#[verifier::external_type_specification]
#[verifier::external_body]
pub struct ExOwnedName(::xml::name::OwnedName);

#[verifier::external_type_specification]
#[verifier::external_body]
pub struct ExOwnedAttribute(::xml::attribute::OwnedAttribute);

#[verifier::external_type_specification]
#[verifier::external_body]
pub struct ExXmlRsNamespace(::xml::namespace::Namespace);

#[verifier::external_type_specification]
#[verifier::external_body]
pub struct ExXmlRsReadEvent(::xml::reader::XmlEvent);

#[verifier::external_type_specification]
#[verifier::external_body]
pub struct ExEmitterError(::xml::writer::Error);

} // verus!

verus! {

#[verifier::external_type_specification]
#[verifier::external_body]
pub struct ExXmlRsWriteEvent<'a>(::xml::writer::XmlEvent<'a>);

#[verifier::external_type_specification]
#[verifier::external_body]
pub struct ExRsAttribute<'a>(::xml::attribute::Attribute<'a>);

} // verus!

verus! {

#[verifier::external_type_specification]
#[verifier::external_body]
#[verifier::reject_recursive_types(T)]
pub struct ExCursor<T>(std::io::Cursor<T>);

} // verus!
