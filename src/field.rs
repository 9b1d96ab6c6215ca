//! Typed values that a document node can hold, with their encoding as nodes.

use crate::value::{Node, Value};
use vstd::prelude::*;

verus! {

/// A type whose values are stored in a document as nodes.
pub trait FieldValue: Sized + View {
    /// The node that holds the value with model `x`.
    spec fn encode_spec(x: Self::V) -> Node;

    /// The model of the value that node `n` holds, where `n` has this type's shape.
    spec fn decode_spec(n: Node) -> Option<Self::V>;

    /// The models that are written and read back unchanged.
    spec fn valid(x: Self::V) -> bool;

    /// What holds of every value that `decode` returns.
    spec fn inv(&self) -> bool;

    fn encode(self) -> (r: Value)
        ensures
            r@ == Self::encode_spec(self@),
    ;

    fn decode(v: &Value) -> (r: Option<Self>)
        ensures
            match r {
                Some(x) => Self::decode_spec(v@) == Some(x@) && x.inv(),
                None => Self::decode_spec(v@) is None,
            },
    ;

    /// A valid value decodes from its own encoding.
    proof fn lemma_round_trip(x: Self::V)
        requires
            Self::valid(x),
        ensures
            Self::decode_spec(Self::encode_spec(x)) == Some(x),
    ;
}

impl FieldValue for bool {
    open spec fn encode_spec(x: bool) -> Node {
        Node::Bool(x)
    }

    open spec fn decode_spec(n: Node) -> Option<bool> {
        match n {
            Node::Bool(b) => Some(b),
            _ => None,
        }
    }

    open spec fn valid(x: bool) -> bool {
        true
    }

    open spec fn inv(&self) -> bool {
        true
    }

    fn encode(self) -> (r: Value) {
        Value::Bool(self)
    }

    fn decode(v: &Value) -> (r: Option<bool>) {
        match v {
            Value::Bool(b) => Some(*b),
            _ => None,
        }
    }

    proof fn lemma_round_trip(x: bool) {
    }
}

impl FieldValue for i64 {
    open spec fn encode_spec(x: i64) -> Node {
        Node::Int(x as int)
    }

    open spec fn decode_spec(n: Node) -> Option<i64> {
        match n {
            Node::Int(i) => if i64::MIN <= i <= i64::MAX {
                Some(i as i64)
            } else {
                None
            },
            _ => None,
        }
    }

    open spec fn valid(x: i64) -> bool {
        true
    }

    open spec fn inv(&self) -> bool {
        true
    }

    fn encode(self) -> (r: Value) {
        Value::Int(self)
    }

    fn decode(v: &Value) -> (r: Option<i64>) {
        match v {
            Value::Int(i) => Some(*i),
            _ => None,
        }
    }

    proof fn lemma_round_trip(x: i64) {
    }
}

impl FieldValue for i32 {
    open spec fn encode_spec(x: i32) -> Node {
        Node::Int(x as int)
    }

    open spec fn decode_spec(n: Node) -> Option<i32> {
        match n {
            Node::Int(i) => if i32::MIN <= i <= i32::MAX {
                Some(i as i32)
            } else {
                None
            },
            _ => None,
        }
    }

    open spec fn valid(x: i32) -> bool {
        true
    }

    open spec fn inv(&self) -> bool {
        true
    }

    fn encode(self) -> (r: Value) {
        Value::Int(self as i64)
    }

    fn decode(v: &Value) -> (r: Option<i32>) {
        match v {
            Value::Int(i) => if i32::MIN as i64 <= *i && *i <= i32::MAX as i64 {
                Some(*i as i32)
            } else {
                None
            },
            _ => None,
        }
    }

    proof fn lemma_round_trip(x: i32) {
    }
}

impl FieldValue for String {
    open spec fn encode_spec(x: Seq<char>) -> Node {
        Node::Text(x)
    }

    open spec fn decode_spec(n: Node) -> Option<Seq<char>> {
        match n {
            Node::Text(s) => Some(s),
            _ => None,
        }
    }

    open spec fn valid(x: Seq<char>) -> bool {
        true
    }

    open spec fn inv(&self) -> bool {
        true
    }

    fn encode(self) -> (r: Value) {
        Value::Text(self)
    }

    fn decode(v: &Value) -> (r: Option<String>) {
        match v {
            Value::Text(s) => Some(s.clone()),
            _ => None,
        }
    }

    proof fn lemma_round_trip(x: Seq<char>) {
    }
}

/// A node read or written as it stands.
impl FieldValue for Value {
    open spec fn encode_spec(x: Node) -> Node {
        x
    }

    open spec fn decode_spec(n: Node) -> Option<Node> {
        Some(n)
    }

    open spec fn valid(x: Node) -> bool {
        true
    }

    open spec fn inv(&self) -> bool {
        true
    }

    fn encode(self) -> (r: Value) {
        self
    }

    fn decode(v: &Value) -> (r: Option<Value>) {
        Some(v.copy())
    }

    proof fn lemma_round_trip(x: Node) {
    }
}

} // verus!
