use quick_xml::events::Event;
use quick_xml::Reader;

use step_params::button::Button;
use step_params::calculation::Calculation;
use step_params::cursor::Cursor;
use step_params::dialog_field::DialogField;
use step_params::events::{get_attribute, Attr, Tag, XmlEvent};
use step_params::target::Target;

fn open_tag(name: &str, attrs: &[(&str, &str)]) -> XmlEvent {
    XmlEvent::Open(Tag {
        name: name.to_string(),
        attrs: attrs
            .iter()
            .map(|(k, v)| Attr { key: k.to_string(), value: v.to_string() })
            .collect(),
    })
}

fn close_tag(name: &str) -> XmlEvent {
    XmlEvent::Close(name.to_string())
}

#[test]
fn test_button_with_calculation() {
    let xml = r#"
        <Parameter type="Button1">
            <Calculation datatype="1" position="5">
                <Calculation>
                    <Text><![CDATA["OK"]]></Text>
                </Calculation>
            </Calculation>
            <Boolean type="Commit" value="False"></Boolean>
        </Parameter>
    "#;

    let mut reader = Reader::from_str(xml.trim());
    let element = match reader.read_event() {
        Ok(Event::Start(e)) => e,
        _ => panic!("Wrong read event"),
    };

    let button = Button::from_xml(&mut reader, &element);
    assert_eq!(button.label, Some(r#""OK""#.to_string()));
    assert!(!button.commit);
    assert_eq!(
        button.display("Button1"),
        Some(r#"Default Button: "OK""#.to_string())
    );
}

#[test]
fn test_button_with_value_attribute() {
    let xml = r#"
        <Parameter type="Button1" value="Save">
            <Boolean type="Commit" value="True"></Boolean>
        </Parameter>
    "#;

    let mut reader = Reader::from_str(xml.trim());
    let element = match reader.read_event() {
        Ok(Event::Start(e)) => e,
        _ => panic!("Wrong read event"),
    };

    let button = Button::from_xml(&mut reader, &element);
    assert_eq!(button.label, Some("Save".to_string()));
    assert!(button.commit);
    assert_eq!(
        button.display("Button2"),
        Some("Button 2: Save".to_string())
    );
}

#[test]
fn test_empty_button() {
    let xml = r#"
        <Parameter type="Button2">
            <Boolean type="Commit" value="False"></Boolean>
        </Parameter>
    "#;

    let mut reader = Reader::from_str(xml.trim());
    let element = match reader.read_event() {
        Ok(Event::Start(e)) => e,
        _ => panic!("Wrong read event"),
    };

    let button = Button::from_xml(&mut reader, &element);
    assert_eq!(button.label, None);
    assert!(!button.commit);
    assert_eq!(button.display("Button2"), None);
}

#[test]
fn test_button3_display() {
    let xml = r#"
        <Parameter type="Button3" value="Maybe">
            <Boolean type="Commit" value="False"></Boolean>
        </Parameter>
    "#;

    let mut reader = Reader::from_str(xml.trim());
    let element = match reader.read_event() {
        Ok(Event::Start(e)) => e,
        _ => panic!("Wrong read event"),
    };

    let button = Button::from_xml(&mut reader, &element);
    assert_eq!(
        button.display("Button3"),
        Some("Button 3: Maybe".to_string())
    );
}

#[test]
fn test_field_with_variable_and_label() {
    let xml = r#"
        <Parameter type="Field1">
            <Parameter type="Target">
                <Variable value="$input1">
                    <repetition>
                        <Calculation datatype="1" position="32">
                            <Calculation>
                                <Text><![CDATA[1]]></Text>
                            </Calculation>
                        </Calculation>
                    </repetition>
                </Variable>
            </Parameter>
            <Boolean type="Password" value="False"></Boolean>
            <Parameter type="Label">
                <Calculation datatype="1" position="2">
                    <Calculation>
                        <Text><![CDATA["label1"]]></Text>
                    </Calculation>
                </Calculation>
            </Parameter>
        </Parameter>
    "#;

    let mut reader = Reader::from_str(xml.trim());
    let element = match reader.read_event() {
        Ok(Event::Start(e)) => e,
        _ => panic!("Wrong read event"),
    };

    let field = DialogField::from_xml(&mut reader, &element);
    assert_eq!(field.target, Some("$input1".to_string()));
    assert_eq!(field.label, Some(r#""label1""#.to_string()));
    assert!(!field.password);
    assert_eq!(
        field.display("Field1"),
        Some(r#"Input 1: $input1 ; Label 1: "label1""#.to_string())
    );
}

#[test]
fn test_field_with_password() {
    let xml = r#"
        <Parameter type="Field1">
            <Parameter type="Target">
                <Variable value="$input1">
                    <repetition>
                        <Calculation datatype="1" position="32">
                            <Calculation>
                                <Text><![CDATA[1]]></Text>
                            </Calculation>
                        </Calculation>
                    </repetition>
                </Variable>
            </Parameter>
            <Boolean type="Password" value="True"></Boolean>
            <Parameter type="Label">
                <Calculation datatype="1" position="2">
                    <Calculation>
                        <Text><![CDATA["label1"]]></Text>
                    </Calculation>
                </Calculation>
            </Parameter>
        </Parameter>
    "#;

    let mut reader = Reader::from_str(xml.trim());
    let element = match reader.read_event() {
        Ok(Event::Start(e)) => e,
        _ => panic!("Wrong read event"),
    };

    let field = DialogField::from_xml(&mut reader, &element);
    assert!(field.password);
    assert_eq!(
        field.display("Field1"),
        Some(r#"Input 1: $input1 ; Label 1: "label1" ; Password"#.to_string())
    );
}

#[test]
fn test_field2_display() {
    let xml = r#"
        <Parameter type="Field2">
            <Parameter type="Target">
                <Variable value="$input2">
                    <repetition>
                        <Calculation datatype="1" position="33">
                            <Calculation>
                                <Text><![CDATA[1]]></Text>
                            </Calculation>
                        </Calculation>
                    </repetition>
                </Variable>
            </Parameter>
            <Boolean type="Password" value="False"></Boolean>
            <Parameter type="Label">
                <Calculation datatype="1" position="3">
                    <Calculation>
                        <Text><![CDATA["second"]]></Text>
                    </Calculation>
                </Calculation>
            </Parameter>
        </Parameter>
    "#;

    let mut reader = Reader::from_str(xml.trim());
    let element = match reader.read_event() {
        Ok(Event::Start(e)) => e,
        _ => panic!("Wrong read event"),
    };

    let field = DialogField::from_xml(&mut reader, &element);
    assert_eq!(
        field.display("Field2"),
        Some(r#"Input 2: $input2 ; Label 2: "second""#.to_string())
    );
}

#[test]
fn test_button_attribute_overrides_text() {
    let xml = r#"
        <Parameter type="Button1" value="FromAttribute">
            <Text><![CDATA[FromText]]></Text>
        </Parameter>
    "#;

    let mut reader = Reader::from_str(xml.trim());
    let element = match reader.read_event() {
        Ok(Event::Start(e)) => e,
        _ => panic!("Wrong read event"),
    };

    let button = Button::from_xml(&mut reader, &element);
    assert_eq!(button.label, Some("FromAttribute".to_string()));
}

#[test]
fn test_button_first_text_block_wins() {
    let xml = r#"
        <Parameter type="Button1">
            <Text><![CDATA[first]]></Text>
            <Text><![CDATA[second]]></Text>
        </Parameter>
    "#;

    let mut reader = Reader::from_str(xml.trim());
    let element = match reader.read_event() {
        Ok(Event::Start(e)) => e,
        _ => panic!("Wrong read event"),
    };

    let button = Button::from_xml(&mut reader, &element);
    assert_eq!(button.label, Some("first".to_string()));
}

#[test]
fn test_button_empty_text_block_is_skipped() {
    let xml = r#"
        <Parameter type="Button1">
            <Text><![CDATA[]]></Text>
            <Text><![CDATA[late]]></Text>
        </Parameter>
    "#;

    let mut reader = Reader::from_str(xml.trim());
    let element = match reader.read_event() {
        Ok(Event::Start(e)) => e,
        _ => panic!("Wrong read event"),
    };

    let button = Button::from_xml(&mut reader, &element);
    assert_eq!(button.label, Some("late".to_string()));
}

#[test]
fn test_button_last_boolean_wins() {
    let xml = r#"
        <Parameter type="Button1" value="Go">
            <Boolean type="Commit" value="True"></Boolean>
            <Boolean type="Commit" value="False"></Boolean>
        </Parameter>
    "#;

    let mut reader = Reader::from_str(xml.trim());
    let element = match reader.read_event() {
        Ok(Event::Start(e)) => e,
        _ => panic!("Wrong read event"),
    };

    let button = Button::from_xml(&mut reader, &element);
    assert!(!button.commit);

    let xml = r#"
        <Parameter type="Button1" value="Go">
            <Boolean type="Commit" value="False"></Boolean>
            <Boolean type="Commit" value="True"></Boolean>
        </Parameter>
    "#;

    let mut reader = Reader::from_str(xml.trim());
    let element = match reader.read_event() {
        Ok(Event::Start(e)) => e,
        _ => panic!("Wrong read event"),
    };

    let button = Button::from_xml(&mut reader, &element);
    assert!(button.commit);
}

#[test]
fn test_button_empty_attribute_still_seeds_label() {
    let xml = r#"
        <Parameter type="Button1" value="">
            <Text><![CDATA[fallback]]></Text>
        </Parameter>
    "#;

    let mut reader = Reader::from_str(xml.trim());
    let element = match reader.read_event() {
        Ok(Event::Start(e)) => e,
        _ => panic!("Wrong read event"),
    };

    let button = Button::from_xml(&mut reader, &element);
    assert_eq!(button.label, Some(String::new()));
    assert_eq!(button.display("Button1"), None);
}

#[test]
fn test_button_cdata_outside_text_element_is_ignored() {
    let xml = r#"
        <Parameter type="Button1">
            <Text></Text>
            <Box><![CDATA[nope]]></Box>
        </Parameter>
    "#;

    let mut reader = Reader::from_str(xml.trim());
    let element = match reader.read_event() {
        Ok(Event::Start(e)) => e,
        _ => panic!("Wrong read event"),
    };

    let button = Button::from_xml(&mut reader, &element);
    assert_eq!(button.label, None);
}

#[test]
fn test_button_unknown_role_falls_back_to_raw_tag() {
    let button = Button { label: Some("Go".to_string()), commit: false };
    assert_eq!(button.display("Button9"), Some("Button9: Go".to_string()));
}

#[test]
fn test_button_empty_label_renders_none() {
    let button = Button { label: Some(String::new()), commit: true };
    assert_eq!(button.display("Button1"), None);
    assert_eq!(button.display("Button9"), None);
}

#[test]
fn test_field_password_stays_true() {
    let xml = r#"
        <Parameter type="Field1">
            <Boolean type="Password" value="True"></Boolean>
            <Boolean type="Password" value="False"></Boolean>
        </Parameter>
    "#;

    let mut reader = Reader::from_str(xml.trim());
    let element = match reader.read_event() {
        Ok(Event::Start(e)) => e,
        _ => panic!("Wrong read event"),
    };

    let field = DialogField::from_xml(&mut reader, &element);
    assert!(field.password);
}

#[test]
fn test_field_without_target_renders_none() {
    let xml = r#"
        <Parameter type="Field1">
            <Boolean type="Password" value="True"></Boolean>
            <Parameter type="Label">
                <Calculation>
                    <Text><![CDATA[orphan]]></Text>
                </Calculation>
            </Parameter>
        </Parameter>
    "#;

    let mut reader = Reader::from_str(xml.trim());
    let element = match reader.read_event() {
        Ok(Event::Start(e)) => e,
        _ => panic!("Wrong read event"),
    };

    let field = DialogField::from_xml(&mut reader, &element);
    assert_eq!(field.target, None);
    assert_eq!(field.label, Some("orphan".to_string()));
    assert!(field.password);
    assert_eq!(field.display("Field1"), None);
    assert_eq!(field.display("FieldX"), None);
}

#[test]
fn test_field_unknown_role_uses_placeholder() {
    let field = DialogField {
        target: Some("$x".to_string()),
        label: None,
        password: false,
    };
    assert_eq!(field.display("Field7"), Some("Input ?: $x".to_string()));
}

#[test]
fn test_field_empty_label_clause_is_dropped() {
    let field = DialogField {
        target: Some("$x".to_string()),
        label: Some(String::new()),
        password: true,
    };
    assert_eq!(
        field.display("Field3"),
        Some("Input 3: $x ; Password".to_string())
    );
}

#[test]
fn test_button_walk_stops_at_matching_close() {
    let events = vec![
        open_tag("Outer", &[]),
        open_tag("Inner", &[]),
        open_tag("Text", &[]),
        XmlEvent::Text("deep".to_string()),
        close_tag("Text"),
        close_tag("Inner"),
        close_tag("Outer"),
        close_tag("Parameter"),
        open_tag("Sibling", &[]),
        close_tag("Sibling"),
    ];
    let tag = Tag { name: "Parameter".to_string(), attrs: vec![] };
    let mut cur = Cursor::new(events);
    let button = Button::from_events(&mut cur, &tag);
    assert_eq!(button.label, Some("deep".to_string()));
    assert_eq!(cur.position(), 8);
}

#[test]
fn test_dialog_walk_stops_at_matching_close_after_delegation() {
    let events = vec![
        open_tag("Parameter", &[("type", "Target")]),
        open_tag("Variable", &[("value", "$v")]),
        close_tag("Variable"),
        close_tag("Parameter"),
        close_tag("Parameter"),
        open_tag("Sibling", &[]),
    ];
    let mut cur = Cursor::new(events);
    let field = DialogField::from_events(&mut cur);
    assert_eq!(field.target, Some("$v".to_string()));
    assert_eq!(cur.position(), 5);
}

#[test]
fn test_truncated_input_is_an_implicit_close() {
    let events = vec![
        open_tag("Text", &[]),
        XmlEvent::Text("cut off".to_string()),
    ];
    let tag = Tag { name: "Parameter".to_string(), attrs: vec![] };
    let mut cur = Cursor::new(events);
    let button = Button::from_events(&mut cur, &tag);
    assert_eq!(button.label, Some("cut off".to_string()));
    assert!(!button.commit);
    assert_eq!(cur.position(), 2);
}

#[test]
fn test_deeply_nested_content_stays_balanced() {
    let mut events = Vec::new();
    for _ in 0..64 {
        events.push(open_tag("Nest", &[]));
    }
    events.push(XmlEvent::Text("ignored".to_string()));
    for _ in 0..64 {
        events.push(close_tag("Nest"));
    }
    events.push(close_tag("Parameter"));
    events.push(open_tag("Sibling", &[]));
    let mut cur = Cursor::new(events);
    let field = DialogField::from_events(&mut cur);
    assert_eq!(cur.position(), 130);
    assert_eq!(field.target, None);
    assert_eq!(field.label, None);
    assert!(!field.password);
}

#[test]
fn test_target_decoder_takes_first_variable() {
    let events = vec![
        open_tag("Variable", &[("value", "$first")]),
        open_tag("Variable", &[("value", "$second")]),
        close_tag("Variable"),
        close_tag("Variable"),
        close_tag("Parameter"),
    ];
    let mut cur = Cursor::new(events);
    let target = Target::from_events(&mut cur);
    assert_eq!(target.display(), Some("$first".to_string()));
}

#[test]
fn test_calculation_decoder_reads_text_block() {
    let events = vec![
        open_tag("Calculation", &[]),
        open_tag("Text", &[]),
        XmlEvent::Text("x + 1".to_string()),
        close_tag("Text"),
        close_tag("Calculation"),
        close_tag("Parameter"),
    ];
    let mut cur = Cursor::new(events);
    let calculation = Calculation::from_events(&mut cur);
    assert_eq!(calculation.display(), Some("x + 1".to_string()));
}

#[test]
fn test_get_attribute_first_match_wins() {
    let tag = Tag {
        name: "Boolean".to_string(),
        attrs: vec![
            Attr { key: "type".to_string(), value: "Commit".to_string() },
            Attr { key: "value".to_string(), value: "True".to_string() },
            Attr { key: "value".to_string(), value: "False".to_string() },
        ],
    };
    assert_eq!(get_attribute(&tag, "value"), Some("True".to_string()));
    assert_eq!(get_attribute(&tag, "type"), Some("Commit".to_string()));
    assert_eq!(get_attribute(&tag, "missing"), None);
}
