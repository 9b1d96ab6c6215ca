use capi_contract::metadata::{Metadata, ObjectMeta, StringMap};
use capi_contract::types::{Error, Path, Paths, Token};
use capi_contract::value::Value;
use capi_contract::version::Version;

fn obj(entries: Vec<(&str, Value)>) -> Value {
    Value::Object(entries.into_iter().map(|(k, v)| (k.to_string(), v)).collect())
}

fn text(s: &str) -> Value {
    Value::Text(s.to_string())
}

fn empty_doc() -> Value {
    Value::Object(Vec::new())
}

fn map_of(pairs: &[(&str, &str)]) -> StringMap {
    let mut m = StringMap::new();
    for (k, v) in pairs {
        m.push(k.to_string(), v.to_string());
    }
    m
}

#[test]
fn round_trip_scalars() {
    let mut doc = empty_doc();
    let p: Path<i64> = Path::from_tokens(vec!["spec", "replicas"]);
    p.set(&mut doc, 7).unwrap();
    assert_eq!(p.get(&doc).unwrap(), 7);

    let s: Path<String> = Path::from_tokens(vec!["spec", "name"]);
    s.set(&mut doc, "node-a".to_string()).unwrap();
    assert_eq!(s.get(&doc).unwrap(), "node-a");

    let b: Path<bool> = Path::from_tokens(vec!["status", "ready"]);
    b.set(&mut doc, true).unwrap();
    assert_eq!(b.get(&doc).unwrap(), true);
    assert_eq!(p.get(&doc).unwrap(), 7);
}

#[test]
fn round_trip_sequence_and_mapping() {
    let mut doc = empty_doc();
    let list = Value::List(vec![Value::Int(1), text("two"), Value::Null]);
    let p: Path<Value> = Path::from_tokens(vec!["status", "addresses"]);
    p.set(&mut doc, list.copy()).unwrap();
    assert_eq!(p.get(&doc).unwrap(), list);

    let mapping = obj(vec![("a", Value::Bool(false)), ("b", Value::Real("1.5".to_string()))]);
    let q: Path<Value> = Path::from_tokens(vec!["status", "failureDomains"]);
    q.set(&mut doc, mapping.copy()).unwrap();
    assert_eq!(q.get(&doc).unwrap(), mapping);

    let m: Path<StringMap> = Path::from_tokens(vec!["metadata", "labels"]);
    let labels = map_of(&[("app", "web"), ("tier", "front")]);
    m.set(&mut doc, labels.clone()).unwrap();
    assert_eq!(m.get(&doc).unwrap(), labels);
}

#[test]
fn set_overwrites_existing_value() {
    let mut doc = obj(vec![("spec", obj(vec![("replicas", Value::Int(1))]))]);
    let p: Path<i64> = Path::from_tokens(vec!["spec", "replicas"]);
    p.set(&mut doc, 5).unwrap();
    assert_eq!(doc, obj(vec![("spec", obj(vec![("replicas", Value::Int(5))]))]));
}

#[test]
fn set_creates_intermediate_mappings() {
    let mut doc = empty_doc();
    let p: Path<String> = Path::from_tokens(vec!["a", "b", "c"]);
    p.set(&mut doc, "x".to_string()).unwrap();
    assert_eq!(doc, obj(vec![("a", obj(vec![("b", obj(vec![("c", text("x"))]))]))]));
}

#[test]
fn set_through_scalar_is_assign_error() {
    let mut doc = obj(vec![("spec", Value::Int(3))]);
    let before = doc.copy();
    let p: Path<i64> = Path::from_tokens(vec!["spec", "replicas"]);
    assert_eq!(p.set(&mut doc, 1), Err(Error::AssignError));
    assert_eq!(doc, before);
}

#[test]
fn get_absent_is_not_found() {
    let doc = obj(vec![("spec", obj(vec![]))]);
    let p: Path<i64> = Path::from_tokens(vec!["spec", "replicas"]);
    assert_eq!(p.get(&doc), Err(Error::NotFound));
    let q: Path<i64> = Path::from_tokens(vec!["status", "replicas"]);
    assert_eq!(q.get(&doc), Err(Error::NotFound));
    let r: Path<i64> = Path::from_tokens(vec!["spec", "replicas", "deeper"]);
    let doc2 = obj(vec![("spec", obj(vec![("replicas", Value::Int(2))]))]);
    assert_eq!(r.get(&doc2), Err(Error::NotFound));
}

#[test]
fn get_wrong_shape_is_decode_error() {
    let doc = obj(vec![("spec", obj(vec![("replicas", text("three"))]))]);
    let p: Path<i64> = Path::from_tokens(vec!["spec", "replicas"]);
    assert_eq!(p.get(&doc), Err(Error::DecodeError));
    let wide = obj(vec![("n", Value::Int(1i64 << 40))]);
    let q: Path<i32> = Path::from_tokens(vec!["n"]);
    assert_eq!(q.get(&wide), Err(Error::DecodeError));
}

#[test]
fn index_tokens_reach_sequence_elements() {
    let mut doc = obj(vec![("items", Value::List(vec![Value::Int(10), Value::Int(20)]))]);
    let p: Path<i64> = Path::new(vec![Token::Key("items".to_string()), Token::Index(1)]);
    assert_eq!(p.get(&doc), Ok(20));
    p.set(&mut doc, 25).unwrap();
    assert_eq!(p.get(&doc), Ok(25));
    let out: Path<i64> = Path::new(vec![Token::Key("items".to_string()), Token::Index(2)]);
    assert_eq!(out.get(&doc), Err(Error::NotFound));
    assert_eq!(out.set(&mut doc, 1), Err(Error::AssignError));
}

#[test]
fn path_location_and_pointer_text() {
    let p: Path<i64> = Path::from_tokens(vec!["spec", "version"]);
    assert_eq!(p.path(), vec![Token::Key("spec".to_string()), Token::Key("version".to_string())]);
    assert_eq!(p.to_string(), "/spec/version");
    let q: Path<i64> = Path::new(vec![Token::Key("a/b~c".to_string()), Token::Index(3)]);
    assert_eq!(q.to_string(), "/a~1b~0c/3");
}

fn ready_paths() -> Paths<i32> {
    Paths::new(vec![
        Path::from_tokens(vec!["status", "v1beta2", "readyReplicas"]),
        Path::from_tokens(vec!["status", "readyReplicas"]),
    ])
}

#[test]
fn fallback_reads_second_when_first_absent() {
    let doc = obj(vec![("status", obj(vec![("readyReplicas", Value::Int(2))]))]);
    assert_eq!(ready_paths().get(&doc), Ok(2));
}

#[test]
fn fallback_primary_wins_when_both_present() {
    let doc = obj(vec![(
        "status",
        obj(vec![
            ("v1beta2", obj(vec![("readyReplicas", Value::Int(3))])),
            ("readyReplicas", Value::Int(2)),
        ]),
    )]);
    assert_eq!(ready_paths().get(&doc), Ok(3));
}

#[test]
fn fallback_skips_malformed_primary() {
    let doc = obj(vec![(
        "status",
        obj(vec![
            ("v1beta2", obj(vec![("readyReplicas", text("x"))])),
            ("readyReplicas", Value::Int(2)),
        ]),
    )]);
    assert_eq!(ready_paths().get(&doc), Ok(2));
}

#[test]
fn fallback_error_comes_from_primary() {
    let doc = obj(vec![("status", obj(vec![("readyReplicas", text("x"))]))]);
    assert_eq!(ready_paths().get(&doc), Err(Error::NotFound));
}

#[test]
fn fallback_without_candidates() {
    let none: Paths<i32> = Paths::new(Vec::new());
    let mut doc = empty_doc();
    assert_eq!(none.get(&doc), Err(Error::NoFallbackCandidates));
    assert_eq!(none.set(&mut doc, 1), Err(Error::NoFallbackCandidates));
    assert_eq!(doc, empty_doc());
}

#[test]
fn fallback_set_writes_primary_only() {
    let mut doc = obj(vec![("status", obj(vec![("readyReplicas", Value::Int(1))]))]);
    let paths = ready_paths();
    paths.set(&mut doc, 4).unwrap();
    let primary: Path<i32> = Path::from_tokens(vec!["status", "v1beta2", "readyReplicas"]);
    let legacy: Path<i32> = Path::from_tokens(vec!["status", "readyReplicas"]);
    assert_eq!(primary.get(&doc), Ok(4));
    assert_eq!(legacy.get(&doc), Ok(1));
    assert_eq!(paths.get(&doc), Ok(4));
}

fn meta_doc() -> Value {
    obj(vec![("spec", obj(vec![("template", obj(vec![("metadata", obj(vec![]))]))]))])
}

fn template_metadata() -> Metadata {
    Metadata::new(Path::from_tokens(vec!["spec", "template", "metadata"]))
}

#[test]
fn metadata_empty_mappings_are_not_written() {
    let mut doc = meta_doc();
    let meta = ObjectMeta { labels: StringMap::new(), annotations: StringMap::new() };
    template_metadata().set(&mut doc, meta).unwrap();
    assert_eq!(doc, meta_doc());
    let mut bare = empty_doc();
    let meta = ObjectMeta { labels: StringMap::new(), annotations: StringMap::new() };
    template_metadata().set(&mut bare, meta).unwrap();
    assert_eq!(bare, empty_doc());
}

#[test]
fn metadata_writes_only_non_empty_mapping() {
    let mut doc = meta_doc();
    let meta = ObjectMeta { labels: map_of(&[("app", "web")]), annotations: StringMap::new() };
    template_metadata().set(&mut doc, meta).unwrap();
    let expected = obj(vec![(
        "spec",
        obj(vec![(
            "template",
            obj(vec![("metadata", obj(vec![("labels", obj(vec![("app", text("web"))]))]))]),
        )]),
    )]);
    assert_eq!(doc, expected);
    let read = template_metadata().get(&doc).unwrap();
    assert_eq!(read.labels, map_of(&[("app", "web")]));
    assert!(read.annotations.is_empty());
}

#[test]
fn metadata_writes_both_mappings() {
    let mut doc = empty_doc();
    let meta = ObjectMeta {
        labels: map_of(&[("a", "1")]),
        annotations: map_of(&[("note", "kept")]),
    };
    template_metadata().set(&mut doc, meta.clone()).unwrap();
    assert_eq!(template_metadata().get(&doc), Ok(meta));
    assert_eq!(template_metadata().path().len(), 3);
}

#[test]
fn metadata_over_scalar_is_assign_error() {
    let mut doc = obj(vec![("spec", text("flat"))]);
    let meta = ObjectMeta { labels: map_of(&[("a", "1")]), annotations: StringMap::new() };
    assert_eq!(template_metadata().set(&mut doc, meta), Err(Error::AssignError));
    assert_eq!(doc, obj(vec![("spec", text("flat"))]));
}

#[test]
fn metadata_with_non_text_label_is_decode_error() {
    let doc = obj(vec![(
        "spec",
        obj(vec![(
            "template",
            obj(vec![("metadata", obj(vec![("labels", obj(vec![("a", Value::Int(1))]))]))]),
        )]),
    )]);
    assert_eq!(template_metadata().get(&doc), Err(Error::DecodeError));
}

#[test]
fn round_trip_version() {
    let mut doc = empty_doc();
    let p: Path<Version> = Path::from_tokens(vec!["spec", "version"]);
    let v = Version::parse("1.29.3-rc.0").unwrap();
    p.set(&mut doc, v.clone()).unwrap();
    assert_eq!(doc, obj(vec![("spec", obj(vec![("version", text("1.29.3-rc.0"))]))]));
    assert_eq!(p.get(&doc), Ok(v));
}

#[test]
fn copy_is_deep_and_equal() {
    let v = obj(vec![("a", Value::List(vec![obj(vec![("b", text("c"))]), Value::Int(-4)]))]);
    assert_eq!(v.copy(), v);
}
