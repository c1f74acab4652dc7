# yaserde

Serialization and deserialization of XML over interchangeable parser
backends, written in Verus: the library's logic carries `requires`/`ensures`
contracts that Verus proves.

## Layout

- `src/lib.rs` — the `YaSerialize` and `YaDeserialize` traits.
- `src/xml/` — parser-neutral values and backends:
  - `mod.rs`: read, light and write events, the `XmlEventReader` and
    `XmlEventWriter` traits;
  - `name.rs`: `XmlName` and `XmlAttribute`;
  - `namespace.rs`: `XmlNamespace`, a prefix → URI mapping whose prefixes are
    kept distinct by a type invariant, with laws about `put` and `extend`;
  - `emitter.rs`: the `xml-rs` event writer with the record of the events it
    has accepted; only the wrappers that call `EventWriter::write` add to it;
  - `rs_input.rs`: the `xml-rs` event reader with the record of the events
    pulled from it, kept the same way;
  - `xml_rs.rs`: the `xml-rs` reader and writer adapters, stated over those
    records;
  - `quick_input.rs`: the `quick-xml` reader with the trace of every read and
    every text decoding made through it, kept by the wrappers that make them;
  - `quick.rs`: the `quick-xml` reader, with a one-event look-ahead, light
    events, attribute peeking and an inner-text fast path; every event it
    gives is recorded in a ghost log, and the text it gives is stated over the
    trace;
  - `quick_laws.rs`: what holds across several calls of the `quick-xml` reader
    (peeking twice, peeking then consuming, self-closing tags, adjacent text
    coming as one trimmed event, the end of the document, the end tag left by
    `read_inner_text`);
  - `xml_rs_types.rs`, `quick_types.rs`: declarations of the outside types.
- `src/de.rs` — the `Deserializer`: look-ahead, depth count, element skipping.
- `src/ser.rs` — the `Serializer` and the `to_string` family, stated over the
  events its writer has accepted.
- `src/primitives.rs` — values written as one element with text content.
- `src/text.rs` — trimming, searching and splitting of text.

Calls into `xml-rs` and `quick-xml` go through small `#[verifier::external_body]`
wrappers whose contracts say what the outside crates document.  The settings
handed to each parser and writer are carried as ghost values, so the
constructors' contracts state how each backend is configured.

The derive macros (`YaSerialize` and `YaDeserialize` derived for structs and
enums, with their field attributes: rename, attribute, flatten, namespaces,
text, skip_serializing, default) generate code from Rust syntax trees and are
not part of this library, nor is a feature switch between backends: both the
`xml-rs` and the `quick-xml` backend are always built.

`tests/` holds the tests, run against the real outside crates.
