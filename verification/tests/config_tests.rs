use prost_helper::build_config::{attribute_pairs, to_attr, BuildConfig, BuildOption};
use prost_helper::serde_config::{self, AttrScope};
use prost_helper::{DecodingError, EncodingError, ToJson};

#[test]
fn to_attr_wraps_and_joins() {
    let attrs = vec![
        "derive(Serialize, Deserialize)".to_owned(),
        "serde(default)".to_owned(),
    ];
    assert_eq!(
        to_attr(&attrs),
        "#[derive(Serialize, Deserialize)]\n#[serde(default)]"
    );
}

#[test]
fn to_attr_single_and_empty() {
    assert_eq!(to_attr(&["serde(default)".to_owned()]), "#[serde(default)]");
    assert_eq!(to_attr(&[]), "");
}

#[test]
fn attribute_pairs_keep_option_and_path_order() {
    let first = BuildOption {
        paths: vec!["pkg.A".to_owned(), "pkg.B".to_owned()],
        description: String::new(),
        attrs: vec!["serde(default)".to_owned()],
    };
    let second = BuildOption {
        paths: vec!["pkg.C".to_owned()],
        description: String::new(),
        attrs: vec!["derive(Eq)".to_owned(), "serde(default)".to_owned()],
    };
    let pairs = attribute_pairs(&vec![first, second]);
    assert_eq!(pairs.len(), 3);
    assert_eq!(pairs[0].path, "pkg.A");
    assert_eq!(pairs[0].attr, "#[serde(default)]");
    assert_eq!(pairs[1].path, "pkg.B");
    assert_eq!(pairs[1].attr, "#[serde(default)]");
    assert_eq!(pairs[2].path, "pkg.C");
    assert_eq!(pairs[2].attr, "#[derive(Eq)]\n#[serde(default)]");
}

#[test]
fn build_config_default_is_empty() {
    let c = BuildConfig::default();
    assert!(c.includes.is_empty());
    assert!(c.files.is_empty());
    assert!(c.output.is_none());
    assert!(c.messages.is_empty());
    assert!(c.enums.is_empty());
    assert!(c.fields.is_empty());
    assert!(c.bytes.is_empty());
    assert!(c.btree_maps.is_empty());
    let o = BuildOption::default();
    assert!(o.paths.is_empty());
    assert!(o.description.is_empty());
    assert!(o.attrs.is_empty());
}

#[test]
fn serde_config_default_is_empty() {
    let c = serde_config::BuildConfig::default();
    assert!(c.includes.is_empty());
    assert!(c.files.is_empty());
    assert!(c.output.is_empty());
    assert!(c.opts.is_empty());
    let o = serde_config::BuildOption::default();
    assert!(o.scope.is_empty());
    assert!(o.description.is_empty());
    assert!(o.attr.is_empty());
    assert!(o.paths.is_empty());
}

#[test]
fn classify_scope_knows_the_four_scopes() {
    assert_eq!(
        serde_config::classify_scope(&"type".to_owned()),
        Some(AttrScope::Type)
    );
    assert_eq!(
        serde_config::classify_scope(&"field".to_owned()),
        Some(AttrScope::Field)
    );
    assert_eq!(
        serde_config::classify_scope(&"bytes".to_owned()),
        Some(AttrScope::Bytes)
    );
    assert_eq!(
        serde_config::classify_scope(&"btree_map".to_owned()),
        Some(AttrScope::BtreeMap)
    );
    assert_eq!(serde_config::classify_scope(&"message".to_owned()), None);
    assert_eq!(serde_config::classify_scope(&String::new()), None);
}

#[test]
fn error_descriptions_name_the_cause() {
    assert_eq!(EncodingError::InvalidLength.describe(), "invalid id length");
    assert_eq!(DecodingError::InvalidBase64.describe(), "invalid base64 text");
    assert_eq!(
        DecodingError::InvalidIdentifier.describe(),
        "invalid identifier text"
    );
}

#[derive(Default)]
struct Hello {
    msg: String,
    value: u64,
}

impl ToJson for Hello {
    fn to_json(&self) -> String {
        let mut m = serde_json::Map::new();
        m.insert(
            "msg".to_owned(),
            serde_json::Value::String(self.msg.clone()),
        );
        m.insert(
            "value".to_owned(),
            serde_json::Value::Number(serde_json::Number::from(self.value)),
        );
        serde_json::to_string(&serde_json::Value::Object(m)).unwrap()
    }
}

#[test]
fn test_prost_to_json() {
    let hello = Hello::default();
    let result = hello.to_json();
    assert_eq!(result, r#"{"msg":"","value":0}"#);
}
