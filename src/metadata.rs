//! Labels and annotations of a metadata substructure, written without empty mappings.

use crate::field::FieldValue;
use crate::types::{
    assign, key_index, lemma_index_from, lookup, steps, Error, Path, Result, Step, Token,
};
use crate::value::{lemma_view_entries, node_of, view_entries, Node, Value};
use vstd::prelude::*;

verus! {

/// A mapping from strings to strings, in the order of its entries.
#[derive(Clone, Debug, PartialEq)]
pub struct StringMap {
    pub entries: Vec<(String, String)>,
}

/// The model of a sequence of string pairs.
pub open spec fn pairs_view(s: Seq<(String, String)>) -> Seq<(Seq<char>, Seq<char>)> {
    s.map_values(|p: (String, String)| (p.0@, p.1@))
}

impl View for StringMap {
    type V = Seq<(Seq<char>, Seq<char>)>;

    open spec fn view(&self) -> Seq<(Seq<char>, Seq<char>)> {
        pairs_view(self.entries@)
    }
}

/// The mapping node that holds the pairs `m`.
pub open spec fn text_object(m: Seq<(Seq<char>, Seq<char>)>) -> Node {
    Node::Object(m.map_values(|p: (Seq<char>, Seq<char>)| (p.0, Node::Text(p.1))))
}

/// The pairs that a mapping node of text values holds.
pub open spec fn text_pairs(n: Node) -> Option<Seq<(Seq<char>, Seq<char>)>> {
    match n {
        Node::Object(e) => if forall|i: int| 0 <= i < e.len() ==> #[trigger] e[i].1 is Text {
            Some(e.map_values(|p: (Seq<char>, Node)| (p.0, p.1->Text_0)))
        } else {
            None
        },
        _ => None,
    }
}

impl StringMap {
    pub fn new() -> (r: StringMap)
        ensures
            r@ == Seq::<(Seq<char>, Seq<char>)>::empty(),
    {
        let r = StringMap { entries: Vec::new() };
        assert(r@ =~= Seq::<(Seq<char>, Seq<char>)>::empty());
        r
    }

    /// Adds an entry at the end.
    pub fn push(&mut self, key: String, value: String)
        ensures
            final(self)@ == old(self)@.push((key@, value@)),
    {
        self.entries.push((key, value));
        assert(self@ =~= old(self)@.push((key@, value@)));
    }

    pub fn is_empty(&self) -> (r: bool)
        ensures
            r == (self@.len() == 0),
    {
        self.entries.len() == 0
    }
}

impl FieldValue for StringMap {
    open spec fn encode_spec(x: Seq<(Seq<char>, Seq<char>)>) -> Node {
        text_object(x)
    }

    open spec fn decode_spec(n: Node) -> Option<Seq<(Seq<char>, Seq<char>)>> {
        text_pairs(n)
    }

    open spec fn valid(x: Seq<(Seq<char>, Seq<char>)>) -> bool {
        true
    }

    open spec fn inv(&self) -> bool {
        true
    }

    fn encode(self) -> (r: Value) {
        let mut out: Vec<(String, Value)> = Vec::new();
        let ghost m = self@;
        let mut i: usize = 0;
        while i < self.entries.len()
            invariant
                m == self@,
                i <= self.entries.len(),
                out@.len() == i,
                forall|j: int| 0 <= j < i ==> (#[trigger] out@[j]).0@ == m[j].0 && node_of(
                    out@[j].1,
                ) == Node::Text(m[j].1),
            decreases self.entries.len() - i,
        {
            out.push((self.entries[i].0.clone(), Value::Text(self.entries[i].1.clone())));
            i = i + 1;
        }
        proof {
            lemma_view_entries(out@);
            assert(view_entries(out@) =~= m.map_values(
                |p: (Seq<char>, Seq<char>)| (p.0, Node::Text(p.1)),
            ));
        }
        Value::Object(out)
    }

    fn decode(v: &Value) -> (r: Option<StringMap>) {
        match v {
            Value::Object(entries) => {
                let ghost e = view_entries(entries@);
                proof {
                    lemma_view_entries(entries@);
                }
                let mut out: Vec<(String, String)> = Vec::new();
                let mut i: usize = 0;
                while i < entries.len()
                    invariant
                        *v == Value::Object(*entries),
                        e == view_entries(entries@),
                        e.len() == entries@.len(),
                        forall|j: int|
                            0 <= j < e.len() ==> #[trigger] e[j] == (
                                entries@[j].0@,
                                node_of(entries@[j].1),
                            ),
                        i <= entries.len(),
                        out@.len() == i,
                        forall|j: int| 0 <= j < i ==> #[trigger] e[j].1 is Text,
                        forall|j: int|
                            0 <= j < i ==> (#[trigger] out@[j]).0@ == e[j].0 && out@[j].1@
                                == e[j].1->Text_0,
                    decreases entries.len() - i,
                {
                    match &entries[i].1 {
                        Value::Text(s) => {
                            out.push((entries[i].0.clone(), s.clone()));
                        },
                        _ => {
                            assert(!(e[i as int].1 is Text));
                            return None;
                        },
                    }
                    i = i + 1;
                }
                let r = StringMap { entries: out };
                assert(r@ =~= e.map_values(|p: (Seq<char>, Node)| (p.0, p.1->Text_0)));
                Some(r)
            },
            _ => None,
        }
    }

    proof fn lemma_round_trip(x: Seq<(Seq<char>, Seq<char>)>) {
        let e = x.map_values(|p: (Seq<char>, Seq<char>)| (p.0, Node::Text(p.1)));
        assert(e.map_values(|p: (Seq<char>, Node)| (p.0, p.1->Text_0)) =~= x);
    }
}

/// The labels and annotations of an object.
#[derive(Clone, Debug, PartialEq)]
pub struct ObjectMeta {
    pub labels: StringMap,
    pub annotations: StringMap,
}

impl View for ObjectMeta {
    type V = (Seq<(Seq<char>, Seq<char>)>, Seq<(Seq<char>, Seq<char>)>);

    open spec fn view(&self) -> Self::V {
        (self.labels@, self.annotations@)
    }
}

/// The pairs under key `k` of the entries `e`; none where `k` is absent.
pub open spec fn member_pairs(e: Seq<(Seq<char>, Node)>, k: Seq<char>) -> Option<
    Seq<(Seq<char>, Seq<char>)>,
> {
    let i = key_index(e, k);
    if i < 0 {
        Some(Seq::empty())
    } else {
        text_pairs(e[i].1)
    }
}

/// The pairs under key `key` of a mapping; none where the key is absent.
fn member_map(entries: &Vec<(String, Value)>, key: &str) -> (r: Option<StringMap>)
    ensures
        match r {
            Some(m) => member_pairs(view_entries(entries@), key@) == Some(m@),
            None => member_pairs(view_entries(entries@), key@) is None,
        },
{
    let k = key.to_owned();
    proof {
        lemma_view_entries(entries@);
    }
    match lookup(entries, &k) {
        Some(i) => {
            proof {
                lemma_index_from(view_entries(entries@), k@, 0);
            }
            StringMap::decode(&entries[i].1)
        },
        None => Some(StringMap::new()),
    }
}

impl FieldValue for ObjectMeta {
    open spec fn encode_spec(x: Self::V) -> Node {
        Node::Object(seq![("labels"@, text_object(x.0)), ("annotations"@, text_object(x.1))])
    }

    open spec fn decode_spec(n: Node) -> Option<Self::V> {
        match n {
            Node::Object(e) => {
                let l = member_pairs(e, "labels"@);
                let a = member_pairs(e, "annotations"@);
                if l is Some && a is Some {
                    Some((l->0, a->0))
                } else {
                    None
                }
            },
            _ => None,
        }
    }

    open spec fn valid(x: Self::V) -> bool {
        true
    }

    open spec fn inv(&self) -> bool {
        true
    }

    fn encode(self) -> (r: Value) {
        let l = self.labels.encode();
        let a = self.annotations.encode();
        let entries = vec![("labels".to_owned(), l), ("annotations".to_owned(), a)];
        proof {
            lemma_view_entries(entries@);
            assert(view_entries(entries@) =~= seq![
                ("labels"@, text_object(self.labels@)),
                ("annotations"@, text_object(self.annotations@)),
            ]);
        }
        Value::Object(entries)
    }

    fn decode(v: &Value) -> (r: Option<ObjectMeta>) {
        match v {
            Value::Object(entries) => {
                let labels = member_map(entries, "labels");
                let annotations = member_map(entries, "annotations");
                match (labels, annotations) {
                    (Some(labels), Some(annotations)) => Some(ObjectMeta { labels, annotations }),
                    _ => None,
                }
            },
            _ => None,
        }
    }

    proof fn lemma_round_trip(x: Self::V) {
        reveal_strlit("labels");
        reveal_strlit("annotations");
        let e = seq![("labels"@, text_object(x.0)), ("annotations"@, text_object(x.1))];
        assert("labels"@ != "annotations"@) by {
            assert("labels"@.len() != "annotations"@.len());
        }
        assert(key_index(e, "labels"@) == 0);
        assert(key_index(e, "annotations"@) == 1) by {
            assert(crate::types::index_from(e, "annotations"@, 1) == 1);
        }
        StringMap::lemma_round_trip(x.0);
        StringMap::lemma_round_trip(x.1);
    }
}

/// The document after writing the labels and annotations of `meta` below `base`, each
/// only where it is not empty, and the outcome.
pub open spec fn apply_meta(
    doc: Node,
    base: Seq<Step>,
    meta: (Seq<(Seq<char>, Seq<char>)>, Seq<(Seq<char>, Seq<char>)>),
) -> (Node, Result<()>) {
    let (d1, r1) = if meta.0.len() > 0 {
        match assign(doc, base.push(Step::Key("labels"@)), text_object(meta.0)) {
            Some(n) => (n, Ok(())),
            None => (doc, Err(Error::AssignError)),
        }
    } else {
        (doc, Ok(()))
    };
    if r1 is Err {
        (d1, r1)
    } else if meta.1.len() > 0 {
        match assign(d1, base.push(Step::Key("annotations"@)), text_object(meta.1)) {
            Some(n) => (n, Ok(())),
            None => (d1, Err(Error::AssignError)),
        }
    } else {
        (d1, Ok(()))
    }
}

/// Access to a metadata substructure of a document.
pub struct Metadata {
    pub path: Path<ObjectMeta>,
}

impl Metadata {
    pub fn new(path: Path<ObjectMeta>) -> (r: Self)
        ensures
            r.path@ == path@,
    {
        Metadata { path }
    }

    /// The location of the metadata.
    pub fn path(&self) -> (r: &Vec<Token>)
        ensures
            steps(r@) == self.path@,
    {
        &self.path.tokens
    }

    /// Reads the metadata.
    pub fn get(&self, doc: &Value) -> (r: Result<ObjectMeta>)
        ensures
            crate::types::result_view(r) == crate::types::read::<ObjectMeta>(doc@, self.path@),
    {
        self.path.get(doc)
    }

    /// Writes the labels to `<base>/labels` and the annotations to `<base>/annotations`,
    /// each only where it is not empty, so that an empty mapping never appears where
    /// none was. A failure to write the annotations leaves the labels written.
    pub fn set(&self, doc: &mut Value, metadata: ObjectMeta) -> (r: Result<()>)
        ensures
            (final(doc)@, r) == apply_meta(old(doc)@, self.path@, metadata@),
    {
        let ObjectMeta { labels, annotations } = metadata;
        let ghost lm = labels@;
        let ghost am = annotations@;
        if !labels.is_empty() {
            let mut tokens = self.path.path();
            tokens.push(Token::Key("labels".to_owned()));
            proof {
                assert(steps(tokens@) =~= self.path@.push(Step::Key("labels"@)));
            }
            let p: Path<StringMap> = Path::new(tokens);
            let r = p.set(doc, labels);
            if r.is_err() {
                return r;
            }
        }
        if !annotations.is_empty() {
            let mut tokens = self.path.path();
            tokens.push(Token::Key("annotations".to_owned()));
            proof {
                assert(steps(tokens@) =~= self.path@.push(Step::Key("annotations"@)));
            }
            let p: Path<StringMap> = Path::new(tokens);
            let r = p.set(doc, annotations);
            if r.is_err() {
                return r;
            }
        }
        Ok(())
    }
}

/// Writing metadata whose labels and annotations are both empty leaves the document as
/// it was.
pub proof fn lemma_empty_metadata_changes_nothing(doc: Node, base: Seq<Step>)
    ensures
        apply_meta(doc, base, (Seq::empty(), Seq::empty())) == (doc, Ok::<(), Error>(())),
{
}

} // verus!
