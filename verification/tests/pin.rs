use dver::pin::{
    pin_document_bytes, pin_value, plan_for_document, plan_pin, rendered, PinError, PinPlan,
};

const PINNED_9_0_100: &str = "{\n  \"sdk\": {\n    \"version\": \"9.0.100\"\n  }\n}";

#[test]
fn pin_document_is_pretty_printed() {
    let bytes = pin_document_bytes("9.0.100").unwrap();
    assert_eq!(String::from_utf8(bytes).unwrap(), PINNED_9_0_100);
}

#[test]
fn pin_document_reads_back_as_the_version() {
    for version in ["9.0.100", "", "8", "not a version", "quote\" back\\slash \n tab\t \u{e9}"] {
        let bytes = pin_document_bytes(version).unwrap();
        let value: serde_json::Value = serde_json::from_slice(&bytes).unwrap();
        let object = value.as_object().unwrap();
        assert_eq!(object.len(), 1);
        let sdk = object.get("sdk").unwrap().as_object().unwrap();
        assert_eq!(sdk.len(), 1);
        assert_eq!(sdk.get("version").unwrap().as_str(), Some(version));
    }
}

#[test]
fn first_pin_makes_no_backup() {
    let plan = plan_pin("/work", "9.0.100", false).unwrap();
    assert_eq!(
        plan,
        PinPlan {
            target: "/work/global.json".to_string(),
            backup: None,
            content: PINNED_9_0_100.as_bytes().to_vec(),
        }
    );
}

#[test]
fn later_pin_keeps_the_previous_file() {
    let plan = plan_pin("/work", "9.0.100", true).unwrap();
    assert_eq!(
        plan,
        PinPlan {
            target: "/work/global.json".to_string(),
            backup: Some("/work/global.json.bak".to_string()),
            content: PINNED_9_0_100.as_bytes().to_vec(),
        }
    );
}

#[test]
fn pin_in_relative_directory() {
    let plan = plan_pin(".", "8.0.406", true).unwrap();
    assert_eq!(plan.target, "./global.json");
    assert_eq!(plan.backup, Some("./global.json.bak".to_string()));
}

#[test]
fn rendered_passes_bytes_on() {
    assert_eq!(rendered(Ok(vec![1, 2, 3])), Ok(vec![1, 2, 3]));
}

#[test]
fn rendered_reports_the_serialiser_s_message() {
    let error = serde_json::from_str::<serde_json::Value>("{").unwrap_err();
    let message = error.to_string();
    assert_eq!(rendered(Err(error)), Err(PinError::Serialization(message)));
}

#[test]
fn pin_value_holds_the_version_under_sdk() {
    let mut sdk = serde_json::Map::new();
    sdk.insert("version".to_string(), serde_json::Value::String("9.0.100".to_string()));
    let mut doc = serde_json::Map::new();
    doc.insert("sdk".to_string(), serde_json::Value::Object(sdk));
    assert_eq!(pin_value("9.0.100"), serde_json::Value::Object(doc));
}

#[test]
fn plan_for_document_writes_the_bytes_it_is_given() {
    assert_eq!(
        plan_for_document("/work", true, Ok(vec![1, 2, 3])),
        Ok(PinPlan {
            target: "/work/global.json".to_string(),
            backup: Some("/work/global.json.bak".to_string()),
            content: vec![1, 2, 3],
        })
    );
    assert_eq!(
        plan_for_document("/work", false, Ok(Vec::new())),
        Ok(PinPlan { target: "/work/global.json".to_string(), backup: None, content: Vec::new() })
    );
}

#[test]
fn plan_for_document_passes_the_error_on() {
    let error = PinError::Serialization("no".to_string());
    assert_eq!(
        plan_for_document("/work", true, Err(PinError::Serialization("no".to_string()))),
        Err(error)
    );
}

#[test]
fn any_version_can_be_pinned() {
    for version in ["", " ", "9.0.100", "\u{0}\u{1f}\"\\", "\u{10348}\u{e9}"] {
        assert!(pin_document_bytes(version).is_ok());
        assert!(plan_pin("", version, true).is_ok());
    }
}
