use std::io::Write;
use yaserde::ser::Serializer;
use yaserde::xml::{XmlAttribute, XmlName, XmlNamespace};
use yaserde::YaSerialize;

/// Serializes `model` and compares with the expected content after the
/// document declaration (line breaks and the indentation around them removed).
fn serialize_and_validate<T: YaSerialize>(model: &T, content: &str) {
    let data: Result<String, String> = yaserde::ser::to_string(model);
    let content = format!(r#"<?xml version="1.0" encoding="UTF-8"?>{}"#, content);
    assert_eq!(data, Ok(content.split('\n').map(|s| s.trim()).collect::<String>()));
}

/// Writes the start tag of a struct: its label is the serializer's start name,
/// or `default_label`.
fn open_struct<W: Write>(
    writer: &mut Serializer<W>,
    default_label: &str,
    attributes: Vec<XmlAttribute>,
) -> Result<bool, String> {
    let skip = writer.skip_start_end();
    if !skip {
        let label = writer.get_start_event_name().unwrap_or_else(|| default_label.to_string());
        writer.set_start_event_name(None);
        writer.write_start_element(label, attributes, XmlNamespace::empty())?;
    }
    Ok(skip)
}

fn close_struct<W: Write>(writer: &mut Serializer<W>, skip: bool) -> Result<(), String> {
    if !skip {
        writer.write_end_element()?;
    }
    Ok(())
}

/// Serializes `value` as a child element named `label`.
fn child<W: Write, T: YaSerialize>(writer: &mut Serializer<W>, label: &str, value: &T) -> Result<(), String> {
    writer.set_start_event_name(Some(label.to_string()));
    writer.set_skip_start_end(false);
    value.serialize(writer)?;
    writer.set_start_event_name(None);
    Ok(())
}

fn attribute(name: &str, value: &str) -> XmlAttribute {
    XmlAttribute::new(XmlName::local(name), value)
}

fn no_attributes(
    attributes: Vec<XmlAttribute>,
    namespace: XmlNamespace,
) -> Result<(Vec<XmlAttribute>, XmlNamespace), String> {
    Ok((attributes, namespace))
}

#[test]
fn ser_basic() {
    struct XmlStruct {
        item: String,
    }
    impl YaSerialize for XmlStruct {
        fn serialize<W: Write>(&self, writer: &mut Serializer<W>) -> Result<(), String> {
            let skip = open_struct(writer, "base", Vec::new())?;
            child(writer, "item", &self.item)?;
            close_struct(writer, skip)
        }
        fn serialize_attributes(&self, a: Vec<XmlAttribute>, n: XmlNamespace) -> Result<(Vec<XmlAttribute>, XmlNamespace), String> {
            no_attributes(a, n)
        }
    }

    let model = XmlStruct { item: "something".to_string() };
    serialize_and_validate(&model, "<base><item>something</item></base>");
}

struct SubStruct {
    field: String,
}

impl YaSerialize for SubStruct {
    fn serialize<W: Write>(&self, writer: &mut Serializer<W>) -> Result<(), String> {
        let skip = open_struct(writer, "items", Vec::new())?;
        child(writer, "field", &self.field)?;
        close_struct(writer, skip)
    }
    fn serialize_attributes(&self, a: Vec<XmlAttribute>, n: XmlNamespace) -> Result<(Vec<XmlAttribute>, XmlNamespace), String> {
        no_attributes(a, n)
    }
}

fn sub_structs() -> Vec<SubStruct> {
    vec![SubStruct { field: "something1".to_string() }, SubStruct { field: "something2".to_string() }]
}

#[test]
fn ser_list_of_items() {
    struct XmlStruct {
        items: Vec<String>,
    }
    impl YaSerialize for XmlStruct {
        fn serialize<W: Write>(&self, writer: &mut Serializer<W>) -> Result<(), String> {
            let skip = open_struct(writer, "base", Vec::new())?;
            for item in &self.items {
                child(writer, "items", item)?;
            }
            close_struct(writer, skip)
        }
        fn serialize_attributes(&self, a: Vec<XmlAttribute>, n: XmlNamespace) -> Result<(Vec<XmlAttribute>, XmlNamespace), String> {
            no_attributes(a, n)
        }
    }
    let model = XmlStruct { items: vec!["something1".to_string(), "something2".to_string()] };
    serialize_and_validate(&model, "<base><items>something1</items><items>something2</items></base>");

    /// A list of structs, each written under `label`, or flattened.
    struct XmlStructOfStruct {
        label: &'static str,
        flatten: bool,
        items: Vec<SubStruct>,
    }
    impl YaSerialize for XmlStructOfStruct {
        fn serialize<W: Write>(&self, writer: &mut Serializer<W>) -> Result<(), String> {
            let skip = open_struct(writer, "base", Vec::new())?;
            for item in &self.items {
                if self.flatten {
                    writer.set_start_event_name(None);
                    writer.set_skip_start_end(true);
                    item.serialize(writer)?;
                    writer.set_skip_start_end(false);
                } else {
                    child(writer, self.label, item)?;
                }
            }
            close_struct(writer, skip)
        }
        fn serialize_attributes(&self, a: Vec<XmlAttribute>, n: XmlNamespace) -> Result<(Vec<XmlAttribute>, XmlNamespace), String> {
            no_attributes(a, n)
        }
    }

    let model2 = XmlStructOfStruct { label: "items", flatten: false, items: sub_structs() };
    serialize_and_validate(
        &model2,
        "<base><items><field>something1</field></items><items><field>something2</field></items></base>",
    );

    let model3 = XmlStructOfStruct { label: "listField", flatten: false, items: sub_structs() };
    serialize_and_validate(
        &model3,
        "<base><listField><field>something1</field></listField><listField><field>something2</field></listField></base>",
    );

    let model3 = XmlStructOfStruct { label: "items", flatten: false, items: sub_structs() };
    serialize_and_validate(
        &model3,
        "<base><items><field>something1</field></items><items><field>something2</field></items></base>",
    );

    let model3 = XmlStructOfStruct { label: "items", flatten: true, items: sub_structs() };
    serialize_and_validate(&model3, "<base><field>something1</field><field>something2</field></base>");
}

/// A struct with one string attribute, written as an empty element.
struct AttrStruct {
    label: &'static str,
    attribute_name: &'static str,
    value: String,
}

impl YaSerialize for AttrStruct {
    fn serialize<W: Write>(&self, writer: &mut Serializer<W>) -> Result<(), String> {
        let skip = open_struct(writer, self.label, vec![attribute(self.attribute_name, &self.value)])?;
        close_struct(writer, skip)
    }
    fn serialize_attributes(&self, a: Vec<XmlAttribute>, n: XmlNamespace) -> Result<(Vec<XmlAttribute>, XmlNamespace), String> {
        no_attributes(a, n)
    }
}

#[test]
fn ser_attributes() {
    struct XmlStruct {
        item: String,
        sub: AttrStruct,
    }
    impl YaSerialize for XmlStruct {
        fn serialize<W: Write>(&self, writer: &mut Serializer<W>) -> Result<(), String> {
            let skip = open_struct(writer, "base", vec![attribute("item", &self.item)])?;
            child(writer, "sub", &self.sub)?;
            close_struct(writer, skip)
        }
        fn serialize_attributes(&self, a: Vec<XmlAttribute>, n: XmlNamespace) -> Result<(Vec<XmlAttribute>, XmlNamespace), String> {
            no_attributes(a, n)
        }
    }

    let model = XmlStruct {
        item: "something".to_string(),
        sub: AttrStruct { label: "sub", attribute_name: "subitem", value: "sub-something".to_string() },
    };
    serialize_and_validate(&model, r#"<base item="something"><sub subitem="sub-something" /></base>"#);
}

#[test]
fn ser_attributes_complex() {
    enum AttrEnum {
        Variant1,
        Variant2,
    }
    impl AttrEnum {
        fn label(&self) -> &'static str {
            match self {
                AttrEnum::Variant1 => "variant 1",
                AttrEnum::Variant2 => "variant 2",
            }
        }
    }
    struct Struct {
        attr_option_string: Option<String>,
        attr_option_enum: Option<AttrEnum>,
    }
    impl YaSerialize for Struct {
        fn serialize<W: Write>(&self, writer: &mut Serializer<W>) -> Result<(), String> {
            let mut attributes = Vec::new();
            if let Some(value) = &self.attr_option_string {
                attributes.push(attribute("attr_option_string", value));
            }
            if let Some(value) = &self.attr_option_enum {
                attributes.push(attribute("attr_option_enum", value.label()));
            }
            let skip = open_struct(writer, "Struct", attributes)?;
            close_struct(writer, skip)
        }
        fn serialize_attributes(&self, a: Vec<XmlAttribute>, n: XmlNamespace) -> Result<(Vec<XmlAttribute>, XmlNamespace), String> {
            no_attributes(a, n)
        }
    }

    let _unused = AttrEnum::Variant1;
    serialize_and_validate(&Struct { attr_option_string: None, attr_option_enum: None }, "<Struct />");
    serialize_and_validate(
        &Struct {
            attr_option_string: Some("some value".to_string()),
            attr_option_enum: Some(AttrEnum::Variant2),
        },
        r#"
    <Struct attr_option_string="some value" attr_option_enum="variant 2" />
    "#,
    );
}

#[test]
fn ser_rename() {
    struct XmlStruct {
        item: String,
        sub_struct: AttrStruct,
        version: String,
    }
    impl YaSerialize for XmlStruct {
        fn serialize<W: Write>(&self, writer: &mut Serializer<W>) -> Result<(), String> {
            let skip = open_struct(writer, "base", vec![attribute("Item", &self.item)])?;
            child(writer, "sub", &self.sub_struct)?;
            child(writer, "maj.min.bug", &self.version)?;
            close_struct(writer, skip)
        }
        fn serialize_attributes(&self, a: Vec<XmlAttribute>, n: XmlNamespace) -> Result<(Vec<XmlAttribute>, XmlNamespace), String> {
            no_attributes(a, n)
        }
    }

    let model = XmlStruct {
        item: "something".to_string(),
        sub_struct: AttrStruct { label: "sub", attribute_name: "sub_item", value: "sub_something".to_string() },
        version: "2.0.2".into(),
    };
    serialize_and_validate(
        &model,
        r#"<base Item="something"><sub sub_item="sub_something" /><maj.min.bug>2.0.2</maj.min.bug></base>"#,
    );
}

#[test]
fn ser_text_content_with_attributes() {
    struct SubStruct {
        subitem: String,
        text: String,
    }
    impl YaSerialize for SubStruct {
        fn serialize<W: Write>(&self, writer: &mut Serializer<W>) -> Result<(), String> {
            let skip = open_struct(writer, "sub", vec![attribute("sub_item", &self.subitem)])?;
            writer.write_characters(&self.text)?;
            close_struct(writer, skip)
        }
        fn serialize_attributes(&self, a: Vec<XmlAttribute>, n: XmlNamespace) -> Result<(Vec<XmlAttribute>, XmlNamespace), String> {
            no_attributes(a, n)
        }
    }
    struct XmlStruct {
        item: String,
        sub_struct: SubStruct,
    }
    impl YaSerialize for XmlStruct {
        fn serialize<W: Write>(&self, writer: &mut Serializer<W>) -> Result<(), String> {
            let skip = open_struct(writer, "base", vec![attribute("Item", &self.item)])?;
            child(writer, "sub", &self.sub_struct)?;
            close_struct(writer, skip)
        }
        fn serialize_attributes(&self, a: Vec<XmlAttribute>, n: XmlNamespace) -> Result<(Vec<XmlAttribute>, XmlNamespace), String> {
            no_attributes(a, n)
        }
    }

    let model = XmlStruct {
        item: "something".to_string(),
        sub_struct: SubStruct { subitem: "sub_something".to_string(), text: "text_content".to_string() },
    };
    serialize_and_validate(
        &model,
        r#"<base Item="something"><sub sub_item="sub_something">text_content</sub></base>"#,
    );
}

#[test]
fn ser_text_attribute_on_optional_string() {
    struct XmlStruct {
        text: Option<String>,
    }
    impl YaSerialize for XmlStruct {
        fn serialize<W: Write>(&self, writer: &mut Serializer<W>) -> Result<(), String> {
            let skip = open_struct(writer, "base", Vec::new())?;
            let text = self.text.clone().unwrap_or_default();
            writer.write_characters(&text)?;
            close_struct(writer, skip)
        }
        fn serialize_attributes(&self, a: Vec<XmlAttribute>, n: XmlNamespace) -> Result<(Vec<XmlAttribute>, XmlNamespace), String> {
            no_attributes(a, n)
        }
    }

    serialize_and_validate(&XmlStruct { text: Some("Testing text".to_string()) }, r#"<base>Testing text</base>"#);
    serialize_and_validate(&XmlStruct { text: None }, r#"<base></base>"#);
}

#[test]
fn ser_keyword() {
    let model = AttrStruct { label: "base", attribute_name: "ref", value: "978-1522968122".to_string() };
    serialize_and_validate(&model, "<base ref=\"978-1522968122\" />");
}

#[test]
fn ser_name_issue_21() {
    struct XmlStruct {
        name: String,
    }
    impl YaSerialize for XmlStruct {
        fn serialize<W: Write>(&self, writer: &mut Serializer<W>) -> Result<(), String> {
            let skip = open_struct(writer, "base", Vec::new())?;
            child(writer, "name", &self.name)?;
            close_struct(writer, skip)
        }
        fn serialize_attributes(&self, a: Vec<XmlAttribute>, n: XmlNamespace) -> Result<(Vec<XmlAttribute>, XmlNamespace), String> {
            no_attributes(a, n)
        }
    }
    serialize_and_validate(&XmlStruct { name: "something".to_string() }, "<base><name>something</name></base>");
}

#[test]
fn ser_custom() {
    struct Day {
        value: i32,
    }
    impl YaSerialize for Day {
        fn serialize<W: Write>(&self, writer: &mut Serializer<W>) -> Result<(), String> {
            writer.write_start_element("DoubleDay", Vec::new(), XmlNamespace::empty())?;
            writer.write_characters(&(self.value * 2).to_string())?;
            writer.write_end_element()
        }
        fn serialize_attributes(&self, a: Vec<XmlAttribute>, n: XmlNamespace) -> Result<(Vec<XmlAttribute>, XmlNamespace), String> {
            no_attributes(a, n)
        }
    }
    struct Date {
        year: i32,
        month: i32,
        day: Day,
    }
    impl YaSerialize for Date {
        fn serialize<W: Write>(&self, writer: &mut Serializer<W>) -> Result<(), String> {
            let skip = open_struct(writer, "Date", Vec::new())?;
            child(writer, "Year", &self.year.to_string())?;
            child(writer, "Month", &self.month.to_string())?;
            writer.set_start_event_name(Some("Day".to_string()));
            writer.set_skip_start_end(false);
            self.day.serialize(writer)?;
            writer.set_start_event_name(None);
            close_struct(writer, skip)
        }
        fn serialize_attributes(&self, a: Vec<XmlAttribute>, n: XmlNamespace) -> Result<(Vec<XmlAttribute>, XmlNamespace), String> {
            no_attributes(a, n)
        }
    }

    let model = Date { year: 2020, month: 1, day: Day { value: 5 } };
    serialize_and_validate(&model, "<Date><Year>2020</Year><Month>1</Month><DoubleDay>10</DoubleDay></Date>");
}

/// A struct whose attributes are space-separated lists.
struct ListAttributes {
    attributes: Vec<(&'static str, Option<String>)>,
}

impl YaSerialize for ListAttributes {
    fn serialize<W: Write>(&self, writer: &mut Serializer<W>) -> Result<(), String> {
        let mut attributes = Vec::new();
        for (name, value) in &self.attributes {
            if let Some(value) = value {
                attributes.push(attribute(name, value));
            }
        }
        let skip = open_struct(writer, "TestTag", attributes)?;
        close_struct(writer, skip)
    }
    fn serialize_attributes(&self, a: Vec<XmlAttribute>, n: XmlNamespace) -> Result<(Vec<XmlAttribute>, XmlNamespace), String> {
        no_attributes(a, n)
    }
}

fn join<T: ToString>(items: &[T]) -> String {
    items.iter().map(|item| item.to_string()).collect::<Vec<_>>().join(" ")
}

#[test]
fn ser_vec_as_attribute() {
    let numbers: Vec<u32> = vec![1, 2, 3, 4];
    let strings = vec!["hello".to_string(), "world".to_string()];
    let bools = vec![true, false, true];
    let floats: Vec<f64> = vec![6.14, 2.71];
    let model = ListAttributes {
        attributes: vec![
            ("numbers", Some(join(&numbers))),
            ("strings", Some(join(&strings))),
            ("bools", Some(join(&bools))),
            ("floats", Some(join(&floats))),
        ],
    };
    serialize_and_validate(
        &model,
        r#"<TestTag numbers="1 2 3 4" strings="hello world" bools="true false true" floats="6.14 2.71" />"#,
    );
}

#[test]
fn ser_vec_as_attribute_nested() {
    enum Inner {
        One,
        Two,
    }
    impl YaSerialize for Inner {
        fn serialize<W: Write>(&self, writer: &mut Serializer<W>) -> Result<(), String> {
            let label = match self {
                Inner::One => "One",
                Inner::Two => "Two",
            };
            let skip = open_struct(writer, "TestTag", Vec::new())?;
            writer.write_characters(label)?;
            close_struct(writer, skip)
        }
        fn serialize_attributes(&self, a: Vec<XmlAttribute>, n: XmlNamespace) -> Result<(Vec<XmlAttribute>, XmlNamespace), String> {
            no_attributes(a, n)
        }
    }

    let outer = vec![Inner::One, Inner::Two];
    let value = outer
        .iter()
        .map(|item| yaserde::ser::to_string_content(item))
        .collect::<Result<Vec<_>, _>>()
        .unwrap()
        .join(" ");
    let model = ListAttributes { attributes: vec![("outer", Some(value))] };
    serialize_and_validate(&model, r#"<TestTag outer="One Two" />"#);
}

#[test]
fn ser_option_vec_as_attribute() {
    fn model(field: Option<Vec<u32>>) -> ListAttributes {
        let value = field.as_ref().map(|list| join(list));
        ListAttributes { attributes: vec![("field", value)] }
    }

    serialize_and_validate(&model(Some(vec![1, 2, 3, 4])), r#"<TestTag field="1 2 3 4" />"#);
    serialize_and_validate(&model(Some(vec![])), r#"<TestTag field="" />"#);
    serialize_and_validate(&model(None), r#"<TestTag />"#);
}

#[test]
fn ser_option_vec_complex() {
    struct StringStruct {
        start: Option<Vec<AttrStruct>>,
    }
    impl YaSerialize for StringStruct {
        fn serialize<W: Write>(&self, writer: &mut Serializer<W>) -> Result<(), String> {
            let skip = open_struct(writer, "String", Vec::new())?;
            if let Some(list) = &self.start {
                for item in list {
                    child(writer, "Start", item)?;
                }
            }
            close_struct(writer, skip)
        }
        fn serialize_attributes(&self, a: Vec<XmlAttribute>, n: XmlNamespace) -> Result<(Vec<XmlAttribute>, XmlNamespace), String> {
            no_attributes(a, n)
        }
    }
    let start = |value: &str| AttrStruct { label: "Start", attribute_name: "value", value: value.to_string() };

    let model = StringStruct {
        start: Some(vec![start("First string"), start("Second string"), start("Third string")]),
    };
    let content = yaserde::ser::to_string(&model).unwrap();
    assert_eq!(
        content,
        "<?xml version=\"1.0\" encoding=\"UTF-8\"?><String><Start value=\"First string\" /><Start value=\"Second string\" /><Start value=\"Third string\" /></String>"
    );

    let model_none = StringStruct { start: None };
    let content_none = yaserde::ser::to_string(&model_none).unwrap();
    assert_eq!(content_none, "<?xml version=\"1.0\" encoding=\"UTF-8\"?><String />");

    let model_empty = StringStruct { start: Some(vec![]) };
    let content_empty = yaserde::ser::to_string(&model_empty).unwrap();
    assert_eq!(content_empty, "<?xml version=\"1.0\" encoding=\"UTF-8\"?><String />");
}
