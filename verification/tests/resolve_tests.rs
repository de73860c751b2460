use krust::resolve::{find_krust_references, replace_krust_references, YamlNode};
use yaml_rust2::{Yaml, YamlEmitter, YamlLoader};

fn to_node(y: &Yaml) -> YamlNode {
    match y {
        Yaml::String(s) => YamlNode::Str(s.clone()),
        Yaml::Array(items) => YamlNode::Array(items.iter().map(to_node).collect()),
        Yaml::Hash(map) => YamlNode::Hash(
            map.iter().map(|(k, v)| (to_node(k), to_node(v))).collect(),
        ),
        _ => YamlNode::Other,
    }
}

fn from_node(n: &YamlNode) -> Yaml {
    match n {
        YamlNode::Str(s) => Yaml::String(s.clone()),
        YamlNode::Array(items) => Yaml::Array(items.iter().map(from_node).collect()),
        YamlNode::Hash(pairs) => {
            let mut map = yaml_rust2::yaml::Hash::new();
            for (k, v) in pairs {
                map.insert(from_node(k), from_node(v));
            }
            Yaml::Hash(map)
        },
        YamlNode::Other => Yaml::Null,
    }
}

fn load_docs(text: &str) -> Vec<YamlNode> {
    YamlLoader::load_from_str(text).unwrap().iter().map(to_node).collect()
}

fn emit(n: &YamlNode) -> String {
    let mut out = String::new();
    let mut emitter = YamlEmitter::new(&mut out);
    emitter.dump(&from_node(n)).unwrap();
    out
}

#[test]
fn test_find_krust_references() {
    let yaml = r#"
apiVersion: apps/v1
kind: Deployment
metadata:
  name: test
spec:
  template:
    spec:
      containers:
      - name: app
        image: krust://./example/hello-krust
      - name: sidecar
        image: krust://./example/hello-krust
"#;

    let refs = find_krust_references(&load_docs(yaml));
    assert_eq!(refs.len(), 1);
    assert!(refs.contains(&"./example/hello-krust".to_string()));
}

#[test]
fn test_find_multiple_unique_references() {
    let yaml = r#"
containers:
- image: krust://./app1
- image: krust://./app2
- image: regular-image:latest
"#;

    let refs = find_krust_references(&load_docs(yaml));
    assert_eq!(refs.len(), 2);
    assert!(refs.contains(&"./app1".to_string()));
    assert!(refs.contains(&"./app2".to_string()));
}

#[test]
fn test_replace_krust_references() {
    let yaml = r#"image: krust://./example/hello-krust"#;

    let replacements = vec![(
        "./example/hello-krust".to_string(),
        "registry.io/repo@sha256:abc123".to_string(),
    )];

    let docs = load_docs(yaml);
    let replaced = replace_krust_references(&docs[0], &replacements);
    let result = emit(&replaced);
    assert!(result.contains("registry.io/repo@sha256:abc123"));
    assert!(!result.contains("krust://"));
}

#[test]
fn test_multi_document_yaml() {
    let yaml = r#"
image: krust://./app1
---
image: krust://./app2
"#;

    let refs = find_krust_references(&load_docs(yaml));
    assert_eq!(refs.len(), 2);
    assert!(refs.contains(&"./app1".to_string()));
    assert!(refs.contains(&"./app2".to_string()));
}

#[test]
fn test_replace_references_empty_replacements() {
    let yaml = r#"image: krust://./app"#;
    let replacements: Vec<(String, String)> = vec![];

    let docs = load_docs(yaml);
    let replaced = replace_krust_references(&docs[0], &replacements);
    let result = emit(&replaced);
    assert!(result.contains("krust://./app"));
}
