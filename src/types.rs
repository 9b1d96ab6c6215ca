//! Field paths: locating a node inside a document, and typed reads and writes there.

use crate::field::FieldValue;
use crate::value::{
    lemma_view_entries, lemma_view_list, node_of, view_entries, view_list, Node, Value,
};
use core::marker::PhantomData;
use vstd::prelude::*;

verus! {

/// One step of a path: a key of a mapping or an index of a sequence.
#[derive(Clone, Debug, PartialEq)]
pub enum Token {
    Key(String),
    Index(usize),
}

/// The model of a `Token`.
pub enum Step {
    Key(Seq<char>),
    Index(nat),
}

impl View for Token {
    type V = Step;

    open spec fn view(&self) -> Step {
        match self {
            Token::Key(k) => Step::Key(k@),
            Token::Index(i) => Step::Index(*i as nat),
        }
    }
}

/// The model of a sequence of tokens.
pub open spec fn steps(t: Seq<Token>) -> Seq<Step> {
    t.map_values(|x: Token| x@)
}

/// The kinds of failure of a read or a write through a path.
#[derive(Debug, Clone, Copy, PartialEq, Eq, Structural)]
pub enum Error {
    /// No node exists at the path, or at some prefix of it.
    NotFound,
    /// A node exists but does not have the expected shape.
    DecodeError,
    /// An intermediate node on the path cannot hold the next step.
    AssignError,
    /// A fallback path was given no candidate paths.
    NoFallbackCandidates,
}

pub type Result<R> = core::result::Result<R, Error>;

/// The first index at or after `i` whose entry has key `k`, or -1.
pub open spec fn index_from(e: Seq<(Seq<char>, Node)>, k: Seq<char>, i: int) -> int
    decreases e.len() - i,
{
    if i < 0 || i >= e.len() {
        -1
    } else if e[i].0 == k {
        i
    } else {
        index_from(e, k, i + 1)
    }
}

/// The first index whose entry has key `k`, or -1.
pub open spec fn key_index(e: Seq<(Seq<char>, Node)>, k: Seq<char>) -> int {
    index_from(e, k, 0)
}

pub proof fn lemma_index_from(e: Seq<(Seq<char>, Node)>, k: Seq<char>, i: int)
    requires
        0 <= i,
    ensures
        index_from(e, k, i) == -1 || (i <= index_from(e, k, i) < e.len() && e[index_from(
            e,
            k,
            i,
        )].0 == k),
    decreases e.len() - i,
{
    if i < e.len() && e[i].0 != k {
        lemma_index_from(e, k, i + 1);
    }
}

/// The node one step below `n`, if there is one.
pub open spec fn child(n: Node, s: Step) -> Option<Node> {
    match (n, s) {
        (Node::Object(e), Step::Key(k)) => {
            let i = key_index(e, k);
            if i >= 0 {
                Some(e[i].1)
            } else {
                None
            }
        },
        (Node::List(items), Step::Index(i)) => {
            if i < items.len() {
                Some(items[i as int])
            } else {
                None
            }
        },
        _ => None,
    }
}

/// The node found by following `p` from `n`.
pub open spec fn resolve(n: Node, p: Seq<Step>) -> Option<Node>
    decreases p.len(),
{
    if p.len() == 0 {
        Some(n)
    } else {
        match child(n, p[0]) {
            Some(c) => resolve(c, p.skip(1)),
            None => None,
        }
    }
}

/// The document `n` with `v` placed at `p`; missing mapping entries on the way are
/// created as empty mappings. `None` where a node on the way cannot hold the next step.
pub open spec fn assign(n: Node, p: Seq<Step>, v: Node) -> Option<Node>
    decreases p.len(),
{
    if p.len() == 0 {
        Some(v)
    } else {
        match (n, p[0]) {
            (Node::Object(e), Step::Key(k)) => {
                let i = key_index(e, k);
                if i >= 0 {
                    match assign(e[i].1, p.skip(1), v) {
                        Some(c) => Some(Node::Object(e.update(i, (k, c)))),
                        None => None,
                    }
                } else {
                    match assign(Node::Object(Seq::empty()), p.skip(1), v) {
                        Some(c) => Some(Node::Object(e.push((k, c)))),
                        None => None,
                    }
                }
            },
            (Node::List(items), Step::Index(i)) => {
                if i < items.len() {
                    match assign(items[i as int], p.skip(1), v) {
                        Some(c) => Some(Node::List(items.update(i as int, c))),
                        None => None,
                    }
                } else {
                    None
                }
            },
            _ => None,
        }
    }
}

/// What is read back at `p` after `v` was placed there.
pub proof fn lemma_resolve_assign(n: Node, p: Seq<Step>, v: Node)
    requires
        assign(n, p, v) is Some,
    ensures
        resolve(assign(n, p, v)->0, p) == Some(v),
    decreases p.len(),
{
    if p.len() > 0 {
        match (n, p[0]) {
            (Node::Object(e), Step::Key(k)) => {
                let i = key_index(e, k);
                lemma_index_from(e, k, 0);
                if i >= 0 {
                    lemma_resolve_assign(e[i].1, p.skip(1), v);
                    let e2 = e.update(i, (k, assign(e[i].1, p.skip(1), v)->0));
                    lemma_index_from(e2, k, 0);
                    lemma_first_key_kept(e, k, i, assign(e[i].1, p.skip(1), v)->0, 0);
                } else {
                    let c = assign(Node::Object(Seq::empty()), p.skip(1), v)->0;
                    lemma_resolve_assign(Node::Object(Seq::empty()), p.skip(1), v);
                    lemma_first_key_pushed(e, k, c, 0);
                }
            },
            (Node::List(items), Step::Index(i)) => {
                lemma_resolve_assign(items[i as int], p.skip(1), v);
            },
            _ => {},
        }
    }
}

/// Whether `p` and `q` part ways: at some step, after equal steps, they differ.
pub open spec fn diverge(p: Seq<Step>, q: Seq<Step>) -> bool
    decreases p.len(),
{
    p.len() > 0 && q.len() > 0 && (p[0] != q[0] || diverge(p.skip(1), q.skip(1)))
}

/// Entries that agree on where key `k` stands agree on its first index.
pub proof fn lemma_index_same_keys(
    e: Seq<(Seq<char>, Node)>,
    e2: Seq<(Seq<char>, Node)>,
    k: Seq<char>,
    j: int,
)
    requires
        0 <= j,
        e.len() == e2.len(),
        forall|m: int| 0 <= m < e.len() ==> (#[trigger] e[m].0 == k <==> e2[m].0 == k),
    ensures
        index_from(e, k, j) == index_from(e2, k, j),
    decreases e.len() - j,
{
    if j < e.len() {
        lemma_index_same_keys(e, e2, k, j + 1);
    }
}

/// Appending an entry with another key does not move the first index of `k2`.
pub proof fn lemma_index_push_other(
    e: Seq<(Seq<char>, Node)>,
    k: Seq<char>,
    c: Node,
    k2: Seq<char>,
    j: int,
)
    requires
        0 <= j <= e.len(),
        k2 != k,
    ensures
        index_from(e.push((k, c)), k2, j) == index_from(e, k2, j),
    decreases e.len() - j,
{
    let e2 = e.push((k, c));
    if j < e.len() {
        assert(e2[j] == e[j]);
        lemma_index_push_other(e, k, c, k2, j + 1);
    } else {
        assert(e2[j].0 == k);
        assert(index_from(e2, k2, j + 1) == -1);
    }
}

/// A write at `p` leaves the node at every path that parts ways with `p` as it was.
pub proof fn lemma_assign_frame(n: Node, p: Seq<Step>, q: Seq<Step>, v: Node)
    requires
        assign(n, p, v) is Some,
        diverge(p, q),
    ensures
        resolve(assign(n, p, v)->0, q) == resolve(n, q),
    decreases p.len(),
{
    let n2 = assign(n, p, v)->0;
    let same = p[0] == q[0];
    assert(same ==> diverge(p.skip(1), q.skip(1)));
    match (n, p[0]) {
        (Node::Object(e), Step::Key(k)) => {
            let i = key_index(e, k);
            lemma_index_from(e, k, 0);
            if i >= 0 {
                let c = assign(e[i].1, p.skip(1), v)->0;
                let e2 = e.update(i, (k, c));
                assert(n2 == Node::Object(e2));
                match q[0] {
                    Step::Key(k2) => {
                        assert forall|m: int| 0 <= m < e.len() implies (#[trigger] e[m].0 == k2
                            <==> e2[m].0 == k2) by {}
                        lemma_index_same_keys(e, e2, k2, 0);
                        lemma_index_from(e, k2, 0);
                        if k2 == k {
                            lemma_assign_frame(e[i].1, p.skip(1), q.skip(1), v);
                        }
                    },
                    Step::Index(_) => {},
                }
            } else {
                let c = assign(Node::Object(Seq::empty()), p.skip(1), v)->0;
                let e2 = e.push((k, c));
                assert(n2 == Node::Object(e2));
                match q[0] {
                    Step::Key(k2) => {
                        if k2 == k {
                            lemma_first_key_pushed(e, k, c, 0);
                            lemma_assign_frame(
                                Node::Object(Seq::empty()),
                                p.skip(1),
                                q.skip(1),
                                v,
                            );
                            assert(key_index(Seq::<(Seq<char>, Node)>::empty(), q.skip(1)[0]->Key_0)
                                == -1);
                        } else {
                            lemma_index_push_other(e, k, c, k2, 0);
                            lemma_index_from(e, k2, 0);
                        }
                    },
                    Step::Index(_) => {},
                }
            }
        },
        (Node::List(items), Step::Index(i)) => {
            let c = assign(items[i as int], p.skip(1), v)->0;
            assert(n2 == Node::List(items.update(i as int, c)));
            if same {
                lemma_assign_frame(items[i as int], p.skip(1), q.skip(1), v);
            }
        },
        _ => {},
    }
}

/// Replacing the value of the first entry with key `k` keeps it the first one.
pub proof fn lemma_first_key_kept(
    e: Seq<(Seq<char>, Node)>,
    k: Seq<char>,
    i: int,
    c: Node,
    j: int,
)
    requires
        0 <= j <= i,
        index_from(e, k, j) == i,
        0 <= i < e.len(),
    ensures
        index_from(e.update(i, (k, c)), k, j) == i,
    decreases i - j,
{
    if j < i {
        lemma_first_key_kept(e, k, i, c, j + 1);
    }
}

/// Appending an entry for a key that is absent makes it the first with that key.
pub proof fn lemma_first_key_pushed(e: Seq<(Seq<char>, Node)>, k: Seq<char>, c: Node, j: int)
    requires
        0 <= j <= e.len(),
        index_from(e, k, j) == -1,
    ensures
        index_from(e.push((k, c)), k, j) == e.len(),
    decreases e.len() - j,
{
    if j < e.len() {
        lemma_first_key_pushed(e, k, c, j + 1);
    }
}

/// The index of the first entry with key `k`.
pub(crate) fn lookup(entries: &Vec<(String, Value)>, k: &String) -> (r: Option<usize>)
    ensures
        match r {
            Some(i) => key_index(view_entries(entries@), k@) == i as int,
            None => key_index(view_entries(entries@), k@) == -1,
        },
{
    let ghost e = view_entries(entries@);
    proof {
        lemma_view_entries(entries@);
    }
    let mut i: usize = 0;
    while i < entries.len()
        invariant
            e == view_entries(entries@),
            e.len() == entries@.len(),
            forall|j: int| 0 <= j < e.len() ==> #[trigger] e[j] == (entries@[j].0@, node_of(entries@[j].1)),
            i <= entries.len(),
            index_from(e, k@, 0) == index_from(e, k@, i as int),
        decreases entries.len() - i,
    {
        if entries[i].0 == *k {
            return Some(i);
        }
        i = i + 1;
    }
    None
}

/// The node at `path` inside `doc`, if there is one.
pub fn resolve_value<'a>(doc: &'a Value, path: &Vec<Token>) -> (r: Option<&'a Value>)
    ensures
        match r {
            Some(v) => resolve(doc@, steps(path@)) == Some(v@),
            None => resolve(doc@, steps(path@)) is None,
        },
{
    let ghost st = steps(path@);
    let mut cur: &Value = doc;
    let mut i: usize = 0;
    assert(st.subrange(0, st.len() as int) =~= st);
    while i < path.len()
        invariant
            st == steps(path@),
            st.len() == path@.len(),
            i <= path.len(),
            resolve(doc@, st) == resolve(cur@, st.subrange(i as int, st.len() as int)),
        decreases path.len() - i,
    {
        let ghost rest = st.subrange(i as int, st.len() as int);
        assert(rest.skip(1) =~= st.subrange(i + 1, st.len() as int));
        assert(rest[0] == path@[i as int]@);
        match &path[i] {
            Token::Key(k) => {
                match cur {
                    Value::Object(entries) => {
                        proof {
                            lemma_view_entries(entries@);
                        }
                        match lookup(entries, k) {
                            Some(j) => {
                                proof {
                                    lemma_index_from(view_entries(entries@), k@, 0);
                                }
                                cur = &entries[j].1;
                            },
                            None => {
                                return None;
                            },
                        }
                    },
                    _ => {
                        return None;
                    },
                }
            },
            Token::Index(ix) => {
                match cur {
                    Value::List(items) => {
                        proof {
                            lemma_view_list(items@);
                        }
                        if *ix < items.len() {
                            cur = &items[*ix];
                        } else {
                            return None;
                        }
                    },
                    _ => {
                        return None;
                    },
                }
            },
        }
        i = i + 1;
    }
    assert(st.subrange(i as int, st.len() as int).len() == 0);
    Some(cur)
}

/// Places `v` at the part of `path` from `pos` on, below `node`. On failure `node`
/// is left as it was.
fn assign_value(node: &mut Value, path: &Vec<Token>, pos: usize, v: Value) -> (ok: bool)
    requires
        pos <= path.len(),
    ensures
        ok == assign(old(node)@, steps(path@).subrange(pos as int, path@.len() as int), v@) is Some,
        ok ==> assign(old(node)@, steps(path@).subrange(pos as int, path@.len() as int), v@)
            == Some(final(node)@),
        !ok ==> final(node)@ == old(node)@,
    decreases path.len() - pos,
{
    let ghost st = steps(path@);
    let ghost rest = st.subrange(pos as int, path@.len() as int);
    if pos == path.len() {
        assert(rest.len() == 0);
        *node = v;
        return true;
    }
    assert(rest.skip(1) =~= st.subrange(pos + 1, path@.len() as int));
    assert(rest[0] == path@[pos as int]@);
    let ghost old_node = node@;
    match &path[pos] {
        Token::Key(k) => {
            match node {
                Value::Object(entries) => {
                    let ghost old_entries = entries@;
                    proof {
                        lemma_view_entries(entries@);
                    }
                    match lookup(entries, k) {
                        Some(j) => {
                            let ghost e = view_entries(old_entries);
                            proof {
                                lemma_index_from(e, k@, 0);
                            }
                            let ok = assign_value(&mut entries[j].1, path, pos + 1, v);
                            proof {
                                lemma_view_entries(entries@);
                                if ok {
                                    assert(view_entries(entries@) =~= e.update(
                                        j as int,
                                        (k@, node_of(entries@[j as int].1)),
                                    ));
                                } else {
                                    assert(view_entries(entries@) =~= e);
                                }
                            }
                            ok
                        },
                        None => {
                            let mut c = Value::Object(Vec::new());
                            proof {
                                lemma_view_entries(Seq::<(String, Value)>::empty());
                                assert(view_entries(Seq::<(String, Value)>::empty()) =~= Seq::<
                                    (Seq<char>, Node),
                                >::empty());
                            }
                            let ok = assign_value(&mut c, path, pos + 1, v);
                            if ok {
                                entries.push((k.clone(), c));
                                proof {
                                    lemma_view_entries(entries@);
                                    assert(view_entries(entries@) =~= view_entries(
                                        old_entries,
                                    ).push((k@, node_of(c))));
                                }
                            }
                            ok
                        },
                    }
                },
                _ => false,
            }
        },
        Token::Index(ix) => {
            match node {
                Value::List(items) => {
                    let ghost old_items = items@;
                    proof {
                        lemma_view_list(items@);
                    }
                    if *ix < items.len() {
                        let ok = assign_value(&mut items[*ix], path, pos + 1, v);
                        proof {
                            lemma_view_list(items@);
                            if ok {
                                assert(view_list(items@) =~= view_list(old_items).update(
                                    *ix as int,
                                    node_of(items@[*ix as int]),
                                ));
                            } else {
                                assert(view_list(items@) =~= view_list(old_items));
                            }
                        }
                        ok
                    } else {
                        false
                    }
                },
                _ => false,
            }
        },
    }
}

/// Places `v` at `path` inside `doc`: `true` on success; on failure `doc` is unchanged.
pub fn assign_at(doc: &mut Value, path: &Vec<Token>, v: Value) -> (ok: bool)
    ensures
        ok == assign(old(doc)@, steps(path@), v@) is Some,
        ok ==> assign(old(doc)@, steps(path@), v@) == Some(final(doc)@),
        !ok ==> final(doc)@ == old(doc)@,
{
    assert(steps(path@).subrange(0, path@.len() as int) =~= steps(path@));
    assign_value(doc, path, 0, v)
}

/// The result of reading a value of type `R` at `p` inside `doc`.
pub open spec fn read<R: FieldValue>(doc: Node, p: Seq<Step>) -> core::result::Result<R::V, Error> {
    match resolve(doc, p) {
        None => Err(Error::NotFound),
        Some(n) => match R::decode_spec(n) {
            Some(x) => Ok(x),
            None => Err(Error::DecodeError),
        },
    }
}

/// The document after writing the value with model `x` at `p`, if that can be done.
pub open spec fn write<R: FieldValue>(doc: Node, p: Seq<Step>, x: R::V) -> Option<Node> {
    assign(doc, p, R::encode_spec(x))
}

/// The model of a result.
pub open spec fn result_view<R: View>(r: Result<R>) -> core::result::Result<R::V, Error> {
    match r {
        Ok(x) => Ok(x@),
        Err(e) => Err(e),
    }
}

/// The path made of the keys `keys`, in order.
pub open spec fn key_steps(keys: Seq<&str>) -> Seq<Step> {
    keys.map_values(|k: &str| Step::Key(k@))
}

/// '~' and '/' written as "~0" and "~1".
pub open spec fn escaped(s: Seq<char>) -> Seq<char>
    decreases s.len(),
{
    if s.len() == 0 {
        Seq::empty()
    } else {
        let head = if s[0] == '~' {
            seq!['~', '0']
        } else if s[0] == '/' {
            seq!['~', '1']
        } else {
            seq![s[0]]
        };
        head + escaped(s.skip(1))
    }
}

pub open spec fn digit(d: nat) -> char {
    if d == 0 { '0' } else if d == 1 { '1' } else if d == 2 { '2' } else if d == 3 { '3' }
    else if d == 4 { '4' } else if d == 5 { '5' } else if d == 6 { '6' } else if d == 7 { '7' }
    else if d == 8 { '8' } else { '9' }
}

/// The decimal digits of `n`.
pub open spec fn decimal(n: nat) -> Seq<char>
    decreases n,
{
    if n < 10 {
        seq![digit(n)]
    } else {
        decimal(n / 10).push(digit(n % 10))
    }
}

/// A path written as a JSON pointer: each step after a '/'.
pub open spec fn pointer_text(p: Seq<Step>) -> Seq<char>
    decreases p.len(),
{
    if p.len() == 0 {
        Seq::empty()
    } else {
        let step = match p[0] {
            Step::Key(k) => escaped(k),
            Step::Index(i) => decimal(i),
        };
        seq!['/'] + step + pointer_text(p.skip(1))
    }
}

/// Relies on jsonptr's `PointerBuf::from_tokens` and its `Display`: each token follows a
/// '/', with '~' encoded as "~0" and '/' as "~1"; an index is written in decimal.
#[verifier::external_body]
fn pointer_string(tokens: &Vec<Token>) -> (r: String)
    ensures
        r@ == pointer_text(steps(tokens@)),
{
    jsonptr::PointerBuf::from_tokens(tokens.iter().map(|t| match t {
        Token::Key(k) => jsonptr::Token::new(k.as_str()),
        Token::Index(i) => jsonptr::Token::from(*i),
    })).to_string()
}

/// A copy of a sequence of tokens.
fn copy_tokens(t: &Vec<Token>) -> (r: Vec<Token>)
    ensures
        steps(r@) == steps(t@),
{
    let mut r: Vec<Token> = Vec::new();
    let mut i: usize = 0;
    while i < t.len()
        invariant
            i <= t.len(),
            r@.len() == i,
            forall|j: int| 0 <= j < i ==> #[trigger] r@[j]@ == t@[j]@,
        decreases t.len() - i,
    {
        let c = match &t[i] {
            Token::Key(k) => Token::Key(k.clone()),
            Token::Index(ix) => Token::Index(*ix),
        };
        r.push(c);
        i = i + 1;
    }
    assert(steps(r@) =~= steps(t@));
    r
}

/// The location of a field of type `R` inside a document.
pub struct Path<R> {
    pub tokens: Vec<Token>,
    pub marker: PhantomData<R>,
}

impl<R> View for Path<R> {
    type V = Seq<Step>;

    open spec fn view(&self) -> Seq<Step> {
        steps(self.tokens@)
    }
}

impl<R> Path<R> {
    /// A path has at least one step.
    pub open spec fn wf(&self) -> bool {
        self.tokens@.len() > 0
    }

    pub fn new(tokens: Vec<Token>) -> (r: Self)
        requires
            tokens@.len() > 0,
        ensures
            r@ == steps(tokens@),
            r.wf(),
    {
        Path { tokens, marker: PhantomData }
    }

    /// The path made of the given keys, in order.
    pub fn from_tokens(keys: Vec<&str>) -> (r: Self)
        requires
            keys@.len() > 0,
        ensures
            r@ == key_steps(keys@),
            r.wf(),
    {
        let mut tokens: Vec<Token> = Vec::new();
        let mut i: usize = 0;
        while i < keys.len()
            invariant
                i <= keys.len(),
                tokens@.len() == i,
                forall|j: int| 0 <= j < i ==> #[trigger] tokens@[j]@ == Step::Key(keys@[j]@),
            decreases keys.len() - i,
        {
            tokens.push(Token::Key(keys[i].to_owned()));
            i = i + 1;
        }
        assert(steps(tokens@) =~= key_steps(keys@));
        Path::new(tokens)
    }

    /// The location, as a sequence of tokens.
    pub fn path(&self) -> (r: Vec<Token>)
        ensures
            steps(r@) == self@,
    {
        copy_tokens(&self.tokens)
    }

    /// The location written as a JSON pointer.
    pub fn to_string(&self) -> (r: String)
        ensures
            r@ == pointer_text(self@),
    {
        pointer_string(&self.tokens)
    }
}

impl<R: FieldValue> Path<R> {
    /// Reads the value at this path: `NotFound` where no node is there, `DecodeError`
    /// where the node there has another shape.
    pub fn get(&self, doc: &Value) -> (r: Result<R>)
        ensures
            result_view(r) == read::<R>(doc@, self@),
            r matches Ok(x) ==> x.inv(),
    {
        match resolve_value(doc, &self.tokens) {
            None => Err(Error::NotFound),
            Some(n) => match R::decode(n) {
                Some(x) => Ok(x),
                None => Err(Error::DecodeError),
            },
        }
    }

    /// Writes `data` at this path, creating missing mapping entries on the way. Where a
    /// node on the way cannot hold the next step, fails with `AssignError` and leaves the
    /// document as it was.
    pub fn set(&self, doc: &mut Value, data: R) -> (r: Result<()>)
        ensures
            match write::<R>(old(doc)@, self@, data@) {
                Some(n) => r is Ok && final(doc)@ == n,
                None => r == Err::<(), Error>(Error::AssignError) && final(doc)@ == old(doc)@,
            },
    {
        let v = data.encode();
        if assign_at(doc, &self.tokens, v) {
            Ok(())
        } else {
            Err(Error::AssignError)
        }
    }
}

/// Candidate locations of one field, the first being the canonical one.
pub struct Paths<R> {
    pub paths: Vec<Path<R>>,
}

impl<R> View for Paths<R> {
    type V = Seq<Seq<Step>>;

    open spec fn view(&self) -> Seq<Seq<Step>> {
        self.paths@.map_values(|p: Path<R>| p@)
    }
}

/// The first successful read among the candidates from `i` on; where none succeeds,
/// the read of the first candidate.
pub open spec fn first_read<R: FieldValue>(doc: Node, ps: Seq<Seq<Step>>, i: int) -> core::result::Result<
    R::V,
    Error,
>
    decreases ps.len() - i,
{
    if i < 0 || i >= ps.len() {
        read::<R>(doc, ps[0])
    } else {
        match read::<R>(doc, ps[i]) {
            Ok(x) => Ok(x),
            Err(_) => first_read::<R>(doc, ps, i + 1),
        }
    }
}

/// The result of reading through candidate locations `ps`.
pub open spec fn fallback_read<R: FieldValue>(doc: Node, ps: Seq<Seq<Step>>) -> core::result::Result<
    R::V,
    Error,
> {
    if ps.len() == 0 {
        Err(Error::NoFallbackCandidates)
    } else {
        first_read::<R>(doc, ps, 0)
    }
}

impl<R> Paths<R> {
    pub fn new(paths: Vec<Path<R>>) -> (r: Self)
        ensures
            r.paths@ == paths@,
    {
        Paths { paths }
    }
}

impl<R: FieldValue> Paths<R> {
    /// Reads from the first candidate that yields a value; where none does, the error
    /// is that of the first candidate.
    pub fn get(&self, doc: &Value) -> (r: Result<R>)
        ensures
            result_view(r) == fallback_read::<R>(doc@, self@),
            r matches Ok(x) ==> x.inv(),
    {
        if self.paths.len() == 0 {
            return Err(Error::NoFallbackCandidates);
        }
        let ghost ps = self@;
        let mut i: usize = 0;
        while i < self.paths.len()
            invariant
                ps == self@,
                ps.len() == self.paths@.len() > 0,
                i <= self.paths.len(),
                fallback_read::<R>(doc@, ps) == first_read::<R>(doc@, ps, i as int),
            decreases self.paths.len() - i,
        {
            assert(ps[i as int] == self.paths@[i as int]@);
            let r = self.paths[i].get(doc);
            if r.is_ok() {
                return r;
            }
            i = i + 1;
        }
        assert(ps[0] == self.paths@[0]@);
        self.paths[0].get(doc)
    }

    /// Writes to the first candidate only.
    pub fn set(&self, doc: &mut Value, data: R) -> (r: Result<()>)
        ensures
            self@.len() == 0 ==> r == Err::<(), Error>(Error::NoFallbackCandidates) && final(doc)@
                == old(doc)@,
            self@.len() > 0 ==> match write::<R>(old(doc)@, self@[0], data@) {
                Some(n) => r is Ok && final(doc)@ == n,
                None => r == Err::<(), Error>(Error::AssignError) && final(doc)@ == old(doc)@,
            },
    {
        if self.paths.len() == 0 {
            return Err(Error::NoFallbackCandidates);
        }
        assert(self@[0] == self.paths@[0]@);
        self.paths[0].set(doc, data)
    }
}

/// Reading back what was written at a path gives the written value.
pub proof fn lemma_set_then_get<R: FieldValue>(doc: Node, p: Seq<Step>, x: R::V)
    requires
        R::valid(x),
        write::<R>(doc, p, x) is Some,
    ensures
        read::<R>(write::<R>(doc, p, x)->0, p) == Ok::<R::V, Error>(x),
{
    lemma_resolve_assign(doc, p, R::encode_spec(x));
    R::lemma_round_trip(x);
}

/// Of two candidates, the first wins whenever it can be read; the second is read only
/// where the first cannot be.
pub proof fn lemma_fallback_precedence<R: FieldValue>(doc: Node, a: Seq<Step>, b: Seq<Step>)
    ensures
        read::<R>(doc, a) is Ok ==> fallback_read::<R>(doc, seq![a, b]) == read::<R>(doc, a),
        read::<R>(doc, a) is Err && read::<R>(doc, b) is Ok ==> fallback_read::<R>(
            doc,
            seq![a, b],
        ) == read::<R>(doc, b),
{
    let ps = seq![a, b];
    assert(ps[0] == a && ps[1] == b);
    assert(first_read::<R>(doc, ps, 2) == read::<R>(doc, a));
    if read::<R>(doc, a) is Err && read::<R>(doc, b) is Ok {
        assert(first_read::<R>(doc, ps, 1) == read::<R>(doc, b));
        assert(first_read::<R>(doc, ps, 0) == first_read::<R>(doc, ps, 1));
    }
}

/// After a write through candidate locations, the canonical location alone reads the
/// written value back, and every other candidate that parts ways with it reads what it
/// read before.
pub proof fn lemma_fallback_write_forward<R: FieldValue>(doc: Node, ps: Seq<Seq<Step>>, x: R::V)
    requires
        ps.len() > 0,
        R::valid(x),
        write::<R>(doc, ps[0], x) is Some,
    ensures
        read::<R>(write::<R>(doc, ps[0], x)->0, ps[0]) == Ok::<R::V, Error>(x),
        forall|i: int|
            0 < i < ps.len() && diverge(ps[0], #[trigger] ps[i]) ==> read::<R>(
                write::<R>(doc, ps[0], x)->0,
                ps[i],
            ) == read::<R>(doc, ps[i]),
{
    lemma_set_then_get::<R>(doc, ps[0], x);
    assert forall|i: int|
        0 < i < ps.len() && diverge(ps[0], #[trigger] ps[i]) implies read::<R>(
        write::<R>(doc, ps[0], x)->0,
        ps[i],
    ) == read::<R>(doc, ps[i]) by {
        lemma_assign_frame(doc, ps[0], ps[i], R::encode_spec(x));
    }
}

} // verus!
