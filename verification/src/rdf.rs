//! RDF statements, the mutable graph store, and the assertion functions
//! that validate a graph against expected statements by consuming them.

use crate::error::Error;
use crate::error::SpecError;
use vstd::prelude::*;
use vstd::string::StringExecFns;

verus! {

/// IRI of the RDF `type` predicate.
pub const RDF_TYPE: &'static str = "http://www.w3.org/1999/02/22-rdf-syntax-ns#type";

/// IRI of the RDF `nil` list terminator.
pub const RDF_NIL: &'static str = "http://www.w3.org/1999/02/22-rdf-syntax-ns#nil";

/// IRI of the RDF `first` list predicate.
pub const RDF_FIRST: &'static str = "http://www.w3.org/1999/02/22-rdf-syntax-ns#first";

/// IRI of the RDF `rest` list predicate.
pub const RDF_REST: &'static str = "http://www.w3.org/1999/02/22-rdf-syntax-ns#rest";

/// IRI of the RDF JSON literal datatype.
pub const RDF_JSON: &'static str = "http://www.w3.org/1999/02/22-rdf-syntax-ns#JSON";

/// Mathematical model of a [`Literal`].
#[verifier::ext_equal]
pub enum SpecLiteral {
    /// A plain string literal.
    String(Seq<char>),
    /// A language-tagged string: value, language tag.
    LangString(Seq<char>, Seq<char>),
    /// A typed string: value, datatype IRI.
    TypedString(Seq<char>, Seq<char>),
}

/// Mathematical model of a [`Subject`].
#[verifier::ext_equal]
pub enum SpecSubject {
    /// A named node.
    Iri(Seq<char>),
    /// A blank node.
    Blank(Seq<char>),
}

/// Mathematical model of an [`Object`].
#[verifier::ext_equal]
pub enum SpecObject {
    /// A named node.
    Iri(Seq<char>),
    /// A blank node.
    Blank(Seq<char>),
    /// A scalar value.
    Literal(SpecLiteral),
}

/// Mathematical model of a [`Triple`].
#[verifier::ext_equal]
pub struct SpecTriple {
    /// The subject of the statement.
    pub subject: SpecSubject,
    /// The predicate of the statement, always an IRI.
    pub predicate: Seq<char>,
    /// The object of the statement.
    pub object: SpecObject,
}

/// A scalar value in object position: a plain string, a language-tagged
/// string, or a string typed with a datatype IRI.
#[derive(Debug, Clone, PartialEq, Eq)]
pub enum Literal {
    /// A plain string literal.
    String(String),
    /// A language-tagged string: value, language tag.
    LangString(String, String),
    /// A typed string: value, datatype IRI.
    TypedString(String, String),
}

/// The left-hand side of a statement: a named node or a blank node.
#[derive(Debug, Clone, PartialEq, Eq)]
pub enum Subject {
    /// A named node, identified by its IRI.
    Iri(String),
    /// A blank node, identified only locally.
    Blank(String),
}

/// The right-hand side of a statement: a named node, a blank node, or a
/// literal value.
#[derive(Debug, Clone, PartialEq, Eq)]
pub enum Object {
    /// A named node, identified by its IRI.
    Iri(String),
    /// A blank node, identified only locally.
    Blank(String),
    /// A scalar value.
    Literal(Literal),
}

/// One subject–predicate–object statement. It enters and leaves the graph
/// store atomically: no statement is ever partially consumed.
#[derive(Debug, Clone, PartialEq, Eq)]
pub struct Triple {
    /// The subject of the statement.
    pub subject: Subject,
    /// The predicate of the statement, always an IRI.
    pub predicate: String,
    /// The object of the statement.
    pub object: Object,
}

impl View for Literal {
    type V = SpecLiteral;

    open spec fn view(&self) -> SpecLiteral {
        match self {
            Literal::String(v) => SpecLiteral::String(v@),
            Literal::LangString(v, l) => SpecLiteral::LangString(v@, l@),
            Literal::TypedString(v, t) => SpecLiteral::TypedString(v@, t@),
        }
    }
}

impl DeepView for Literal {
    type V = SpecLiteral;

    open spec fn deep_view(&self) -> SpecLiteral {
        self.view()
    }
}

impl View for Subject {
    type V = SpecSubject;

    open spec fn view(&self) -> SpecSubject {
        match self {
            Subject::Iri(s) => SpecSubject::Iri(s@),
            Subject::Blank(b) => SpecSubject::Blank(b@),
        }
    }
}

impl DeepView for Subject {
    type V = SpecSubject;

    open spec fn deep_view(&self) -> SpecSubject {
        self.view()
    }
}

impl View for Object {
    type V = SpecObject;

    open spec fn view(&self) -> SpecObject {
        match self {
            Object::Iri(s) => SpecObject::Iri(s@),
            Object::Blank(b) => SpecObject::Blank(b@),
            Object::Literal(l) => SpecObject::Literal(l@),
        }
    }
}

impl DeepView for Object {
    type V = SpecObject;

    open spec fn deep_view(&self) -> SpecObject {
        self.view()
    }
}

impl View for Triple {
    type V = SpecTriple;

    open spec fn view(&self) -> SpecTriple {
        SpecTriple { subject: self.subject@, predicate: self.predicate@, object: self.object@ }
    }
}

impl DeepView for Triple {
    type V = SpecTriple;

    open spec fn deep_view(&self) -> SpecTriple {
        self.view()
    }
}

/// Whether statement `t` has subject `s` and predicate `p`; the object is
/// left unconstrained.
pub open spec fn triple_matches(t: SpecTriple, s: SpecSubject, p: Seq<char>) -> bool {
    t.subject == s && t.predicate == p
}

/// Whether some statement of `g` has subject `s` and predicate `p`.
pub open spec fn has_match(g: Seq<SpecTriple>, s: SpecSubject, p: Seq<char>) -> bool {
    exists|i: int| 0 <= i < g.len() && triple_matches(#[trigger] g[i], s, p)
}

/// Index of the first statement of `g` with subject `s` and predicate `p`,
/// or `-1` if there is none.
pub open spec fn find_match(g: Seq<SpecTriple>, s: SpecSubject, p: Seq<char>) -> int
    decreases g.len(),
{
    if g.len() == 0 {
        -1
    } else if triple_matches(g[0], s, p) {
        0
    } else {
        let r = find_match(g.drop_first(), s, p);
        if r < 0 {
            -1
        } else {
            r + 1
        }
    }
}

/// Result of one find-and-remove probe on graph `g`: the object of the
/// first statement with subject `s` and predicate `p` (if any), and the
/// graph with that statement removed.
pub open spec fn take_spec(g: Seq<SpecTriple>, s: SpecSubject, p: Seq<char>) -> (Option<
    SpecObject,
>, Seq<SpecTriple>) {
    let i = find_match(g, s, p);
    if i >= 0 {
        (Some(g[i].object), g.remove(i))
    } else {
        (None, g)
    }
}

/// `find_match` finds the first matching statement exactly when one exists.
pub proof fn lemma_find_match(g: Seq<SpecTriple>, s: SpecSubject, p: Seq<char>)
    ensures
        find_match(g, s, p) == -1 <==> !has_match(g, s, p),
        find_match(g, s, p) >= 0 ==> find_match(g, s, p) < g.len()
            && triple_matches(g[find_match(g, s, p)], s, p)
            && (forall|j: int| 0 <= j < find_match(g, s, p) ==> !triple_matches(#[trigger] g[j], s, p)),
    decreases g.len(),
{
    if g.len() == 0 {
    } else if triple_matches(g[0], s, p) {
        assert(has_match(g, s, p));
    } else {
        lemma_find_match(g.drop_first(), s, p);
        let tail = g.drop_first();
        assert(forall|j: int| 0 <= j < tail.len() ==> #[trigger] tail[j] == g[j + 1]);
        if find_match(tail, s, p) == -1 {
            assert(!has_match(g, s, p)) by {
                if has_match(g, s, p) {
                    let i = choose|i: int| 0 <= i < g.len() && triple_matches(#[trigger] g[i], s, p);
                    assert(i >= 1);
                    assert(tail[i - 1] == g[i]);
                    assert(has_match(tail, s, p));
                }
            }
        } else {
            let r = find_match(tail, s, p);
            assert(g[r + 1] == tail[r]);
            assert(has_match(g, s, p));
            assert(forall|j: int| 0 <= j < r + 1 ==> !triple_matches(#[trigger] g[j], s, p)) by {
                assert(forall|j: int| 1 <= j < r + 1 ==> #[trigger] g[j] == tail[j - 1]);
            }
        }
    }
}

/// A position `i` at which `g` matches `(s, p)`, with no match before it,
/// is exactly the position that `find_match` reports.
proof fn lemma_find_match_at(g: Seq<SpecTriple>, s: SpecSubject, p: Seq<char>, i: int)
    requires
        0 <= i < g.len(),
        triple_matches(g[i], s, p),
        forall|j: int| 0 <= j < i ==> !triple_matches(#[trigger] g[j], s, p),
    ensures
        find_match(g, s, p) == i,
    decreases i,
{
    if i == 0 {
    } else {
        let tail = g.drop_first();
        assert(forall|j: int| 0 <= j < tail.len() ==> #[trigger] tail[j] == g[j + 1]);
        lemma_find_match_at(tail, s, p, i - 1);
    }
}

/// Whether two string slices hold the same characters.
fn str_eq(a: &str, b: &str) -> (r: bool)
    ensures
        r == (a@ == b@),
{
    let ao: String = a.to_owned();
    let bo: String = b.to_owned();
    ao.eq(&bo)
}

/// Whether two subjects are the same node.
fn subject_eq(a: &Subject, b: &Subject) -> (r: bool)
    ensures
        r == (a@ == b@),
{
    match (a, b) {
        (Subject::Iri(x), Subject::Iri(y)) => x.eq(y),
        (Subject::Blank(x), Subject::Blank(y)) => x.eq(y),
        _ => false,
    }
}

/// A mutable store of RDF statements, viewed as the sequence of its
/// statements.
///
/// The store is purely consumed during validation: the assertion functions
/// remove every statement they match, so its statement count shrinks
/// monotonically, and a caller can confirm that a graph holds no unexpected
/// statements by checking that the store is empty once every expectation
/// has been asserted.
#[derive(Debug, Clone, PartialEq, Eq)]
pub struct Graph {
    triples: Vec<Triple>,
}

impl View for Graph {
    type V = Seq<SpecTriple>;

    closed spec fn view(&self) -> Seq<SpecTriple> {
        Seq::new(self.triples@.len(), |i: int| self.triples@[i]@)
    }
}

impl Graph {
    /// An empty graph.
    pub fn new() -> (g: Graph)
        ensures
            g@ == Seq::<SpecTriple>::empty(),
    {
        let g = Graph { triples: Vec::new() };
        proof {
            assert(g@ =~= Seq::<SpecTriple>::empty());
        }
        g
    }

    /// Add statement `t` to the graph.
    pub fn insert(&mut self, t: Triple)
        ensures
            final(self)@ == old(self)@.push(t@),
    {
        let ghost tv = t@;
        self.triples.push(t);
        proof {
            assert(self@ =~= old(self)@.push(tv));
        }
    }

    /// The number of statements currently in the graph.
    pub fn len(&self) -> (n: usize)
        ensures
            n == self@.len(),
    {
        self.triples.len()
    }

    /// Whether no statement remains: the caller's final exhaustion check
    /// after every expected statement has been asserted.
    pub fn is_empty(&self) -> (r: bool)
        ensures
            r == (self@.len() == 0),
    {
        self.triples.len() == 0
    }

    /// The statements that remain in the graph, for the caller's post-hoc
    /// inspection of what was not consumed.
    pub fn remaining(&self) -> (r: &Vec<Triple>)
        ensures
            r.deep_view() == self@,
    {
        proof {
            assert(self.triples.deep_view() =~= self@);
        }
        &self.triples
    }

    /// Find and remove at most one statement with subject `s` and predicate
    /// `p`, returning its object, or `None` (and leaving the graph
    /// unchanged) when no statement matches.
    pub fn take_object(&mut self, s: &Subject, p: &str) -> (r: Option<Object>)
        ensures
            final(self)@ == take_spec(old(self)@, s@, p@).1,
            r.deep_view() == take_spec(old(self)@, s@, p@).0,
    {
        let p_owned: String = p.to_owned();
        let mut i: usize = 0;
        while i < self.triples.len()
            invariant
                self == old(self),
                i <= self.triples@.len(),
                p_owned@ == p@,
                forall|j: int| 0 <= j < i ==> !triple_matches(#[trigger] old(self)@[j], s@, p@),
            decreases self.triples@.len() - i,
        {
            if subject_eq(&self.triples[i].subject, s) && self.triples[i].predicate.eq(&p_owned) {
                proof {
                    lemma_find_match_at(old(self)@, s@, p@, i as int);
                }
                let t = self.triples.remove(i);
                proof {
                    assert(final(self)@ =~= old(self)@.remove(i as int));
                }
                return Some(t.object);
            }
            i += 1;
        }
        proof {
            lemma_find_match(old(self)@, s@, p@);
            if has_match(old(self)@, s@, p@) {
                let k = choose|k: int|
                    0 <= k < old(self)@.len() && triple_matches(#[trigger] old(self)@[k], s@, p@);
                assert(!triple_matches(old(self)@[k], s@, p@));
            }
        }
        None
    }
}

/// Whether the two texts parse as JSON documents of the same structure.
///
/// What this holds of given texts is decided by the JSON grammar and by
/// structural equality of JSON values; it is not restated here. The library
/// learns it only through [`json_text_eq`].
pub uninterp spec fn json_eq(a: Seq<char>, b: Seq<char>) -> bool;

/// Relies on `serde_json::from_str::<serde_json::Value>` and on the
/// structural equality of `serde_json::Value`: whether both texts parse as
/// JSON and denote structurally equal values is a function of the two
/// texts alone.
#[verifier::external_body]
fn json_text_eq(a: &str, b: &str) -> (r: bool)
    ensures
        r == json_eq(a@, b@),
{
    match (
        serde_json::from_str::<serde_json::Value>(a),
        serde_json::from_str::<serde_json::Value>(b),
    ) {
        (Ok(x), Ok(y)) => x == y,
        _ => false,
    }
}

/// Mathematical model of an [`Expected`] value.
#[verifier::ext_equal]
pub enum SpecExpected {
    /// The object must be the named node with this IRI.
    Iri(Seq<char>),
    /// The object must be a named node with this IRI, or a plain string
    /// literal with this value.
    IriOrString(Seq<char>),
    /// The object must be a string literal typed with the RDF JSON
    /// datatype whose text is JSON-equal to this text.
    Json(Seq<char>),
}

/// An expected scalar value, together with the comparison policy under
/// which a statement's object is compared against it.
#[derive(Debug, Clone, PartialEq, Eq)]
pub enum Expected {
    /// The object must be the named node with this IRI.
    Iri(String),
    /// The object must be a named node with this IRI, or a plain string
    /// literal with this value.
    IriOrString(String),
    /// The object must be a string literal typed with the RDF JSON
    /// datatype, parseable as JSON structurally equal to this JSON text.
    /// A parse failure or a datatype mismatch counts as not equal, not as
    /// a separate error.
    Json(String),
}

impl View for Expected {
    type V = SpecExpected;

    open spec fn view(&self) -> SpecExpected {
        match self {
            Expected::Iri(v) => SpecExpected::Iri(v@),
            Expected::IriOrString(v) => SpecExpected::IriOrString(v@),
            Expected::Json(v) => SpecExpected::Json(v@),
        }
    }
}

impl DeepView for Expected {
    type V = SpecExpected;

    open spec fn deep_view(&self) -> SpecExpected {
        self.view()
    }
}

/// Whether object `o` satisfies expectation `e` under `e`'s comparison
/// policy. Every variant of `o` that a policy does not accept compares as
/// not equal; none is an error.
pub open spec fn object_matches(o: SpecObject, e: SpecExpected) -> bool {
    match e {
        SpecExpected::Iri(v) => o == SpecObject::Iri(v),
        SpecExpected::IriOrString(v) => o == SpecObject::Iri(v) || o == SpecObject::Literal(
            SpecLiteral::String(v),
        ),
        SpecExpected::Json(v) => match o {
            SpecObject::Literal(l) => match l {
                SpecLiteral::TypedString(text, ty) => ty == RDF_JSON@ && json_eq(text, v),
                _ => false,
            },
            _ => false,
        },
    }
}

/// Whether object `o` satisfies expectation `e` under `e`'s comparison
/// policy.
pub fn matches_expectation(o: &Object, e: &Expected) -> (r: bool)
    ensures
        r == object_matches(o@, e@),
{
    match (o, e) {
        (Object::Iri(i), Expected::Iri(v)) => i.eq(v),
        (Object::Iri(i), Expected::IriOrString(v)) => i.eq(v),
        (Object::Literal(l), Expected::IriOrString(v)) => match l {
            Literal::String(s) => s.eq(v),
            _ => false,
        },
        (Object::Literal(l), Expected::Json(v)) => match l {
            Literal::TypedString(text, ty) => str_eq(ty.as_str(), RDF_JSON) && json_text_eq(
                text.as_str(),
                v.as_str(),
            ),
            _ => false,
        },
        _ => false,
    }
}

/// Rendering of a literal for error reports: the value quoted, followed by
/// its language tag or datatype IRI where it has one.
pub open spec fn spec_render_literal(l: SpecLiteral) -> Seq<char> {
    match l {
        SpecLiteral::String(v) => "\""@ + v + "\""@,
        SpecLiteral::LangString(v, t) => "\""@ + v + "\"@"@ + t,
        SpecLiteral::TypedString(v, t) => "\""@ + v + "\"^^<"@ + t + ">"@,
    }
}

/// Rendering of an object for error reports: a node as its identifier, a
/// literal as in [`spec_render_literal`].
pub open spec fn spec_render_object(o: SpecObject) -> Seq<char> {
    match o {
        SpecObject::Iri(s) => s,
        SpecObject::Blank(b) => b,
        SpecObject::Literal(l) => spec_render_literal(l),
    }
}

/// Rendering of an expected value for error reports: the bare expected
/// string.
pub open spec fn spec_render_expected(e: SpecExpected) -> Seq<char> {
    match e {
        SpecExpected::Iri(v) => v,
        SpecExpected::IriOrString(v) => v,
        SpecExpected::Json(v) => v,
    }
}

/// The comma-separated body of a rendered expected sequence.
pub open spec fn spec_render_items_inner(items: Seq<SpecExpected>) -> Seq<char>
    decreases items.len(),
{
    if items.len() == 0 {
        Seq::empty()
    } else if items.len() == 1 {
        spec_render_expected(items[0])
    } else {
        spec_render_items_inner(items.drop_last()) + ","@ + spec_render_expected(items.last())
    }
}

/// Rendering of an expected sequence for error reports: its items'
/// renderings, comma-separated, in brackets.
pub open spec fn spec_render_items(items: Seq<SpecExpected>) -> Seq<char> {
    "["@ + spec_render_items_inner(items) + "]"@
}

fn render_literal(l: &Literal) -> (r: String)
    ensures
        r@ == spec_render_literal(l@),
{
    let mut r = String::new();
    r.append("\"");
    match l {
        Literal::String(v) => {
            r.append(v.as_str());
            r.append("\"");
        },
        Literal::LangString(v, t) => {
            r.append(v.as_str());
            r.append("\"@");
            r.append(t.as_str());
        },
        Literal::TypedString(v, t) => {
            r.append(v.as_str());
            r.append("\"^^<");
            r.append(t.as_str());
            r.append(">");
        },
    }
    proof {
        assert(r@ =~= spec_render_literal(l@));
    }
    r
}

fn render_object(o: &Object) -> (r: String)
    ensures
        r@ == spec_render_object(o@),
{
    match o {
        Object::Iri(s) => s.clone(),
        Object::Blank(b) => b.clone(),
        Object::Literal(l) => render_literal(l),
    }
}

fn render_expected(e: &Expected) -> (r: String)
    ensures
        r@ == spec_render_expected(e@),
{
    match e {
        Expected::Iri(v) => v.clone(),
        Expected::IriOrString(v) => v.clone(),
        Expected::Json(v) => v.clone(),
    }
}

/// One step of [`spec_render_items_inner`], taken from the front: the
/// rendering of a prefix one item longer appends a comma (after the first
/// item) and the item's rendering.
proof fn lemma_render_items_inner_step(items: Seq<SpecExpected>, k: int)
    requires
        0 <= k < items.len(),
    ensures
        spec_render_items_inner(items.take(k + 1)) == if k == 0 {
            spec_render_expected(items[0])
        } else {
            spec_render_items_inner(items.take(k)) + ","@ + spec_render_expected(items[k])
        },
{
    let t = items.take(k + 1);
    if k == 0 {
        assert(t.len() == 1);
        assert(t[0] == items[0]);
    } else {
        assert(t.drop_last() =~= items.take(k));
        assert(t.last() == items[k]);
    }
}

fn render_items(items: &Vec<Expected>) -> (r: String)
    ensures
        r@ == spec_render_items(items.deep_view()),
{
    let ghost iv = items.deep_view();
    let mut r = String::new();
    r.append("[");
    let mut k: usize = 0;
    while k < items.len()
        invariant
            k <= items.len(),
            iv == items.deep_view(),
            iv.len() == items.len(),
            r@ == "["@ + spec_render_items_inner(iv.take(k as int)),
        decreases items.len() - k,
    {
        if k > 0 {
            r.append(",");
        }
        let item = render_expected(&items[k]);
        r.append(item.as_str());
        proof {
            lemma_render_items_inner_step(iv, k as int);
            assert(r@ =~= "["@ + spec_render_items_inner(iv.take(k + 1)));
        }
        k += 1;
    }
    r.append("]");
    proof {
        assert(iv.take(iv.len() as int) =~= iv);
        assert(r@ =~= spec_render_items(iv));
    }
    r
}

/// Outcome of one scalar assertion on graph `g`: the verdict over the four
/// combinations of expectation present or absent and statement present or
/// absent, and the graph after the probe.
pub open spec fn assert_eq_spec(
    g: Seq<SpecTriple>,
    s: SpecSubject,
    p: Seq<char>,
    expected: Option<SpecExpected>,
) -> (Result<(), SpecError>, Seq<SpecTriple>) {
    let probe = take_spec(g, s, p);
    let g1 = probe.1;
    match (probe.0, expected) {
        (Some(ov), Some(e)) => if object_matches(ov, e) {
            (Ok(()), g1)
        } else {
            (
                Err(
                    SpecError::GraphObjectMismatch(
                        p,
                        spec_render_expected(e),
                        spec_render_object(ov),
                    ),
                ),
                g1,
            )
        },
        (None, None) => (Ok(()), g1),
        (None, Some(e)) => (Err(SpecError::GraphExpectedObject(p, spec_render_expected(e))), g1),
        (Some(ov), None) => (Err(SpecError::GraphUnexpectedObject(p, spec_render_object(ov))), g1),
    }
}

impl Graph {
    /// When `expected` is `Some(v)`: take any statement `s p o` for the
    /// given `s` and `p` and check that `o` matches `v` under `v`'s
    /// comparison policy. When `expected` is `None`: check that no
    /// statement `s p o` exists. Exactly one statement is consumed when
    /// one matches, none otherwise.
    pub fn take_object_and_assert_eq(
        &mut self,
        s: &Subject,
        p: &str,
        expected: Option<Expected>,
    ) -> (r: Result<(), Error>)
        ensures
            final(self)@ == assert_eq_spec(old(self)@, s@, p@, expected.deep_view()).1,
            (match r {
                Ok(_) => assert_eq_spec(old(self)@, s@, p@, expected.deep_view()).0 == Ok::<
                    (),
                    SpecError,
                >(()),
                Err(e) => assert_eq_spec(old(self)@, s@, p@, expected.deep_view()).0 == Err::<
                    (),
                    SpecError,
                >(e@),
            }),
    {
        match (self.take_object(s, p), expected) {
            (Some(o), Some(e)) => {
                if matches_expectation(&o, &e) {
                    Ok(())
                } else {
                    Err(
                        Error::GraphObjectMismatch(
                            p.to_owned(),
                            render_expected(&e),
                            render_object(&o),
                        ),
                    )
                }
            },
            (None, None) => Ok(()),
            (None, Some(e)) => Err(Error::GraphExpectedObject(p.to_owned(), render_expected(&e))),
            (Some(o), None) => Err(Error::GraphUnexpectedObject(p.to_owned(), render_object(&o))),
        }
    }
}

/// Resolution of an object into a list position: the `nil` IRI ends a
/// list, any other IRI or a blank node is a list node, and a literal is
/// never a valid list position.
pub open spec fn spec_resolve(o: SpecObject) -> Option<Option<SpecSubject>> {
    match o {
        SpecObject::Iri(i) => if i == RDF_NIL@ {
            Some(None)
        } else {
            Some(Some(SpecSubject::Iri(i)))
        },
        SpecObject::Blank(b) => Some(Some(SpecSubject::Blank(b))),
        SpecObject::Literal(_) => None,
    }
}

fn resolve_list_node(o: Object) -> (r: Result<Option<Subject>, Literal>)
    ensures
        match r {
            Ok(h) => spec_resolve(o@) == Some(h.deep_view()),
            Err(l) => o@ == SpecObject::Literal(l@) && spec_resolve(o@) is None,
        },
{
    match o {
        Object::Iri(i) => if str_eq(i.as_str(), RDF_NIL) {
            Ok(None)
        } else {
            Ok(Some(Subject::Iri(i)))
        },
        Object::Blank(b) => Ok(Some(Subject::Blank(b))),
        Object::Literal(l) => Err(l),
    }
}

/// Outcome of walking an RDF-encoded list from `head`, validating and
/// consuming each node's `first` and `rest` statements against `items` in
/// order: the verdict, and the graph after the walk. The walk stops at the
/// first failure.
pub open spec fn walk_list_spec(
    g: Seq<SpecTriple>,
    head: Option<SpecSubject>,
    items: Seq<SpecExpected>,
) -> (Result<(), SpecError>, Seq<SpecTriple>)
    decreases items.len(),
{
    if items.len() == 0 {
        match head {
            Some(_) => (Err(SpecError::GraphExpectedEndOfList), g),
            None => (Ok(()), g),
        }
    } else {
        match head {
            None => (Err(SpecError::GraphUnexpectedEndOfList), g),
            Some(node) => {
                let probe_first = take_spec(g, node, RDF_FIRST@);
                match probe_first.0 {
                    None => (Err(SpecError::GraphInvalidList), probe_first.1),
                    Some(first) => if !object_matches(first, items[0]) {
                        (
                            Err(
                                SpecError::GraphListItemMismatch(
                                    spec_render_object(first),
                                    spec_render_expected(items[0]),
                                ),
                            ),
                            probe_first.1,
                        )
                    } else {
                        let probe_rest = take_spec(probe_first.1, node, RDF_REST@);
                        match probe_rest.0 {
                            None => (Err(SpecError::GraphInvalidList), probe_rest.1),
                            Some(rest) => match spec_resolve(rest) {
                                None => (Err(SpecError::GraphInvalidList), probe_rest.1),
                                Some(next) => walk_list_spec(
                                    probe_rest.1,
                                    next,
                                    items.drop_first(),
                                ),
                            },
                        }
                    },
                }
            },
        }
    }
}

/// Outcome of one list assertion on graph `g`: the head statement is
/// probed as in [`assert_eq_spec`], its object resolved as a list
/// position, and the list walked against `items`.
pub open spec fn assert_eq_list_spec(
    g: Seq<SpecTriple>,
    s: SpecSubject,
    p: Seq<char>,
    expected: Option<Seq<SpecExpected>>,
) -> (Result<(), SpecError>, Seq<SpecTriple>) {
    let probe = take_spec(g, s, p);
    let g1 = probe.1;
    match (probe.0, expected) {
        (Some(o), Some(items)) => match spec_resolve(o) {
            None => (
                Err(
                    SpecError::GraphObjectMismatch(p, spec_render_items(items), spec_render_object(o)),
                ),
                g1,
            ),
            Some(head) => walk_list_spec(g1, head, items),
        },
        (None, None) => (Ok(()), g1),
        (None, Some(items)) => (Err(SpecError::GraphExpectedObject(p, spec_render_items(items))), g1),
        (Some(o), None) => (Err(SpecError::GraphUnexpectedObject(p, spec_render_object(o))), g1),
    }
}

impl Graph {
    /// When `expected` is `Some(items)`: take the statement `s p o` for
    /// the given `s` and `p`, read `o` as the head of an RDF-encoded list,
    /// and walk the list, checking each element against the corresponding
    /// item of `items` and consuming every node's `first` and `rest`
    /// statements, so that a fully validated list leaves no residue in the
    /// graph. When `expected` is `None`: check that no statement `s p o`
    /// exists.
    pub fn take_object_and_assert_eq_list(
        &mut self,
        s: &Subject,
        p: &str,
        expected: Option<&Vec<Expected>>,
    ) -> (r: Result<(), Error>)
        ensures
            final(self)@ == assert_eq_list_spec(old(self)@, s@, p@, expected.deep_view()).1,
            (match r {
                Ok(_) => assert_eq_list_spec(old(self)@, s@, p@, expected.deep_view()).0 == Ok::<
                    (),
                    SpecError,
                >(()),
                Err(e) => assert_eq_list_spec(old(self)@, s@, p@, expected.deep_view()).0 == Err::<
                    (),
                    SpecError,
                >(e@),
            }),
    {
        match (self.take_object(s, p), expected) {
            (Some(o), Some(items)) => {
                let mut head: Option<Subject> = match resolve_list_node(o) {
                    Ok(h) => h,
                    Err(l) => {
                        return Err(
                            Error::GraphObjectMismatch(
                                p.to_owned(),
                                render_items(items),
                                render_literal(&l),
                            ),
                        );
                    },
                };
                let ghost g1 = self@;
                let ghost h0 = head.deep_view();
                let ghost items0 = items.deep_view();
                proof {
                    assert(items0.skip(0) =~= items0);
                    assert(assert_eq_list_spec(old(self)@, s@, p@, expected.deep_view())
                        == walk_list_spec(g1, h0, items0));
                }
                let mut k: usize = 0;
                while k < items.len()
                    invariant
                        k <= items.len(),
                        items0 == items.deep_view(),
                        items0.len() == items.len(),
                        walk_list_spec(self@, head.deep_view(), items0.skip(k as int))
                            == assert_eq_list_spec(old(self)@, s@, p@, expected.deep_view()),
                    decreases items.len() - k,
                {
                    proof {
                        assert(items0.skip(k as int)[0] == items0[k as int]);
                    }
                    let node = match head {
                        Some(n) => n,
                        None => {
                            return Err(Error::GraphUnexpectedEndOfList);
                        },
                    };
                    let first = match self.take_object(&node, RDF_FIRST) {
                        Some(f) => f,
                        None => {
                            return Err(Error::GraphInvalidList);
                        },
                    };
                    if !matches_expectation(&first, &items[k]) {
                        return Err(
                            Error::GraphListItemMismatch(
                                render_object(&first),
                                render_expected(&items[k]),
                            ),
                        );
                    }
                    let rest = match self.take_object(&node, RDF_REST) {
                        Some(t) => t,
                        None => {
                            return Err(Error::GraphInvalidList);
                        },
                    };
                    head = match resolve_list_node(rest) {
                        Ok(h) => h,
                        Err(_) => {
                            return Err(Error::GraphInvalidList);
                        },
                    };
                    proof {
                        assert(items0.skip(k as int).drop_first() =~= items0.skip(k as int + 1));
                    }
                    k += 1;
                }
                proof {
                    assert(items0.skip(items0.len() as int) =~= Seq::<SpecExpected>::empty());
                }
                match head {
                    Some(_) => Err(Error::GraphExpectedEndOfList),
                    None => Ok(()),
                }
            },
            (None, None) => Ok(()),
            (None, Some(items)) => Err(
                Error::GraphExpectedObject(p.to_owned(), render_items(items)),
            ),
            (Some(o), None) => Err(Error::GraphUnexpectedObject(p.to_owned(), render_object(&o))),
        }
    }

    /// When `expected` is `Some(iri)`: take any statement `s p o` for the
    /// given `s` and `p` and check that `o` is the named node `iri`. When
    /// `expected` is `None`: check that no statement `s p o` exists.
    pub fn take_object_and_assert_eq_iri(
        &mut self,
        s: &Subject,
        p: &str,
        expected: Option<&str>,
    ) -> (r: Result<(), Error>)
        ensures
            final(self)@ == assert_eq_spec(old(self)@, s@, p@, iri_expectation(expected)).1,
            (match r {
                Ok(_) => assert_eq_spec(old(self)@, s@, p@, iri_expectation(expected)).0 == Ok::<
                    (),
                    SpecError,
                >(()),
                Err(e) => assert_eq_spec(old(self)@, s@, p@, iri_expectation(expected)).0 == Err::<
                    (),
                    SpecError,
                >(e@),
            }),
    {
        match expected {
            Some(v) => self.take_object_and_assert_eq(s, p, Some(Expected::Iri(v.to_owned()))),
            None => self.take_object_and_assert_eq(s, p, None),
        }
    }

    /// When `expected` is `Some(text)`: take any statement `s p o` for the
    /// given `s` and `p` and check that `o` is a named node whose IRI, or
    /// a plain string literal whose value, equals `text`. When `expected`
    /// is `None`: check that no statement `s p o` exists.
    pub fn take_object_and_assert_eq_iri_or_str(
        &mut self,
        s: &Subject,
        p: &str,
        expected: Option<&str>,
    ) -> (r: Result<(), Error>)
        ensures
            final(self)@ == assert_eq_spec(old(self)@, s@, p@, iri_or_str_expectation(expected)).1,
            (match r {
                Ok(_) => assert_eq_spec(old(self)@, s@, p@, iri_or_str_expectation(expected)).0
                    == Ok::<(), SpecError>(()),
                Err(e) => assert_eq_spec(old(self)@, s@, p@, iri_or_str_expectation(expected)).0
                    == Err::<(), SpecError>(e@),
            }),
    {
        match expected {
            Some(v) => self.take_object_and_assert_eq(
                s,
                p,
                Some(Expected::IriOrString(v.to_owned())),
            ),
            None => self.take_object_and_assert_eq(s, p, None),
        }
    }

    /// When `expected` is `Some(json)`: take any statement `s p o` for the
    /// given `s` and `p` and check that `o` is a string literal typed with
    /// the RDF JSON datatype whose text is JSON-equal to `json`. When
    /// `expected` is `None`: check that no statement `s p o` exists.
    pub fn take_object_and_assert_eq_json(
        &mut self,
        s: &Subject,
        p: &str,
        expected: Option<&str>,
    ) -> (r: Result<(), Error>)
        ensures
            final(self)@ == assert_eq_spec(old(self)@, s@, p@, json_expectation(expected)).1,
            (match r {
                Ok(_) => assert_eq_spec(old(self)@, s@, p@, json_expectation(expected)).0 == Ok::<
                    (),
                    SpecError,
                >(()),
                Err(e) => assert_eq_spec(old(self)@, s@, p@, json_expectation(expected)).0 == Err::<
                    (),
                    SpecError,
                >(e@),
            }),
    {
        match expected {
            Some(v) => self.take_object_and_assert_eq(s, p, Some(Expected::Json(v.to_owned()))),
            None => self.take_object_and_assert_eq(s, p, None),
        }
    }
}

/// The expectation that the IRI adapter builds from its argument.
pub open spec fn iri_expectation(expected: Option<&str>) -> Option<SpecExpected> {
    match expected {
        Some(v) => Some(SpecExpected::Iri(v@)),
        None => None,
    }
}

/// The expectation that the IRI-or-string adapter builds from its
/// argument.
pub open spec fn iri_or_str_expectation(expected: Option<&str>) -> Option<SpecExpected> {
    match expected {
        Some(v) => Some(SpecExpected::IriOrString(v@)),
        None => None,
    }
}

/// The expectation that the typed-JSON-literal adapter builds from its
/// argument.
pub open spec fn json_expectation(expected: Option<&str>) -> Option<SpecExpected> {
    match expected {
        Some(v) => Some(SpecExpected::Json(v@)),
        None => None,
    }
}

/// After a successful absence assertion — `expected` is `None` — no
/// statement with that subject and predicate remains in the graph.
pub proof fn lemma_absence_assertion_exhausts(g: Seq<SpecTriple>, s: SpecSubject, p: Seq<char>)
    requires
        assert_eq_spec(g, s, p, None).0 is Ok,
    ensures
        forall|i: int|
            0 <= i < assert_eq_spec(g, s, p, None).1.len() ==> !triple_matches(
                #[trigger] assert_eq_spec(g, s, p, None).1[i],
                s,
                p,
            ),
{
    lemma_find_match(g, s, p);
}

/// Exhaustion is permanent: when at most one statement matches `(s, p)`
/// and a value assertion succeeds, consuming that statement, the same
/// assertion made again reports the expected object as missing.
pub proof fn lemma_exhaustion_is_permanent(
    g: Seq<SpecTriple>,
    s: SpecSubject,
    p: Seq<char>,
    e: SpecExpected,
)
    requires
        forall|i: int, j: int|
            0 <= i < g.len() && 0 <= j < g.len() && triple_matches(#[trigger] g[i], s, p)
                && triple_matches(#[trigger] g[j], s, p) ==> i == j,
        assert_eq_spec(g, s, p, Some(e)).0 is Ok,
    ensures
        assert_eq_spec(assert_eq_spec(g, s, p, Some(e)).1, s, p, Some(e)) == (
            Err::<(), SpecError>(SpecError::GraphExpectedObject(p, spec_render_expected(e))),
            assert_eq_spec(g, s, p, Some(e)).1,
        ),
{
    lemma_find_match(g, s, p);
    let i = find_match(g, s, p);
    let g1 = g.remove(i);
    g.remove_ensures(i);
    assert(!has_match(g1, s, p)) by {
        if has_match(g1, s, p) {
            let j = choose|j: int| 0 <= j < g1.len() && triple_matches(#[trigger] g1[j], s, p);
            if j < i {
                assert(g1[j] == g[j]);
            } else {
                assert(g1[j] == g[j + 1]);
            }
        }
    }
    lemma_find_match(g1, s, p);
}

/// An empty expected sequence against a head statement whose object is
/// the `nil` IRI succeeds, consuming the head statement and nothing else.
pub proof fn lemma_empty_list_nil(g: Seq<SpecTriple>, s: SpecSubject, p: Seq<char>)
    requires
        find_match(g, s, p) >= 0,
        g[find_match(g, s, p)].object == SpecObject::Iri(RDF_NIL@),
    ensures
        assert_eq_list_spec(g, s, p, Some(Seq::empty())) == (
            Ok::<(), SpecError>(()),
            g.remove(find_match(g, s, p)),
        ),
{
}

/// An empty expected sequence against a head statement whose object is a
/// list node — an IRI other than `nil`, or a blank node — fails: the list
/// continues past the expected end.
pub proof fn lemma_empty_list_non_nil(g: Seq<SpecTriple>, s: SpecSubject, p: Seq<char>)
    requires
        find_match(g, s, p) >= 0,
        spec_resolve(g[find_match(g, s, p)].object) matches Some(h) && h is Some,
    ensures
        assert_eq_list_spec(g, s, p, Some(Seq::empty())) == (
            Err::<(), SpecError>(SpecError::GraphExpectedEndOfList),
            g.remove(find_match(g, s, p)),
        ),
{
}

/// A list assertion with no expectation fails on any present head
/// statement: the statement is unexpected, whatever it holds.
pub proof fn lemma_no_expectation_rejects_head(g: Seq<SpecTriple>, s: SpecSubject, p: Seq<char>)
    requires
        find_match(g, s, p) >= 0,
    ensures
        assert_eq_list_spec(g, s, p, None) == (
            Err::<(), SpecError>(
                SpecError::GraphUnexpectedObject(
                    p,
                    spec_render_object(g[find_match(g, s, p)].object),
                ),
            ),
            g.remove(find_match(g, s, p)),
        ),
{
}

/// A probe never grows the graph: it removes exactly one statement when
/// it finds a match and none otherwise.
pub proof fn lemma_take_shrinks(g: Seq<SpecTriple>, s: SpecSubject, p: Seq<char>)
    ensures
        take_spec(g, s, p).0 is Some ==> take_spec(g, s, p).1.len() == g.len() - 1,
        take_spec(g, s, p).0 is None ==> take_spec(g, s, p).1 == g,
{
    lemma_find_match(g, s, p);
    if find_match(g, s, p) >= 0 {
        g.remove_ensures(find_match(g, s, p));
    }
}

/// A list walk only consumes: the remaining graph is never larger than
/// the one the walk started from.
pub proof fn lemma_walk_shrinks(
    g: Seq<SpecTriple>,
    head: Option<SpecSubject>,
    items: Seq<SpecExpected>,
)
    ensures
        walk_list_spec(g, head, items).1.len() <= g.len(),
    decreases items.len(),
{
    if items.len() > 0 && head is Some {
        let node = head->0;
        lemma_take_shrinks(g, node, RDF_FIRST@);
        let probe_first = take_spec(g, node, RDF_FIRST@);
        if probe_first.0 is Some {
            lemma_take_shrinks(probe_first.1, node, RDF_REST@);
            let probe_rest = take_spec(probe_first.1, node, RDF_REST@);
            if probe_rest.0 is Some {
                match spec_resolve(probe_rest.0->0) {
                    Some(next) => {
                        lemma_walk_shrinks(probe_rest.1, next, items.drop_first());
                    },
                    None => {},
                }
            }
        }
    }
}

/// The store shrinks monotonically: no assertion, scalar or list, ever
/// adds a statement to the graph.
pub proof fn lemma_assertions_only_consume(
    g: Seq<SpecTriple>,
    s: SpecSubject,
    p: Seq<char>,
    expected: Option<SpecExpected>,
    expected_items: Option<Seq<SpecExpected>>,
)
    ensures
        assert_eq_spec(g, s, p, expected).1.len() <= g.len(),
        assert_eq_list_spec(g, s, p, expected_items).1.len() <= g.len(),
{
    lemma_take_shrinks(g, s, p);
    let probe = take_spec(g, s, p);
    match (probe.0, expected_items) {
        (Some(o), Some(items)) => match spec_resolve(o) {
            Some(head) => {
                lemma_walk_shrinks(probe.1, head, items);
            },
            None => {},
        },
        _ => {},
    }
}

/// The first list node, if the list is not empty.
pub open spec fn head_of(nodes: Seq<SpecSubject>) -> Option<SpecSubject> {
    if nodes.len() == 0 {
        None
    } else {
        Some(nodes[0])
    }
}

/// The object standing for list position `head`: the node itself, or the
/// `nil` IRI at the end of the list.
pub open spec fn position_object(head: Option<SpecSubject>) -> SpecObject {
    match head {
        None => SpecObject::Iri(RDF_NIL@),
        Some(SpecSubject::Iri(i)) => SpecObject::Iri(i),
        Some(SpecSubject::Blank(b)) => SpecObject::Blank(b),
    }
}

/// Whether `n` can serve as a list node: a blank node, or a named node
/// other than `nil`.
pub open spec fn valid_list_node(n: SpecSubject) -> bool {
    match n {
        SpecSubject::Iri(i) => i != RDF_NIL@,
        SpecSubject::Blank(_) => true,
    }
}

/// The chain of statements encoding a list: node `k` carries a `first`
/// statement with object `objs[k]` and a `rest` statement pointing at node
/// `k + 1`, or at `nil` after the last node.
pub open spec fn spec_list_chain(nodes: Seq<SpecSubject>, objs: Seq<SpecObject>) -> Seq<SpecTriple>
    decreases nodes.len(),
{
    if nodes.len() == 0 {
        Seq::empty()
    } else {
        seq![
            SpecTriple { subject: nodes[0], predicate: RDF_FIRST@, object: objs[0] },
            SpecTriple {
                subject: nodes[0],
                predicate: RDF_REST@,
                object: position_object(head_of(nodes.drop_first())),
            },
        ] + spec_list_chain(nodes.drop_first(), objs.drop_first())
    }
}

/// The walk of an exact list encoding succeeds and consumes it whole.
proof fn lemma_walk_chain(nodes: Seq<SpecSubject>, objs: Seq<SpecObject>, items: Seq<SpecExpected>)
    requires
        nodes.len() == items.len(),
        objs.len() == items.len(),
        forall|k: int| 0 <= k < items.len() ==> object_matches(#[trigger] objs[k], items[k]),
        forall|k: int| 0 <= k < nodes.len() ==> valid_list_node(#[trigger] nodes[k]),
    ensures
        walk_list_spec(spec_list_chain(nodes, objs), head_of(nodes), items) == (
            Ok::<(), SpecError>(()),
            Seq::<SpecTriple>::empty(),
        ),
    decreases items.len(),
{
    let g = spec_list_chain(nodes, objs);
    if items.len() == 0 {
    } else {
        let n0 = nodes[0];
        let tail_chain = spec_list_chain(nodes.drop_first(), objs.drop_first());
        let t0 = SpecTriple { subject: n0, predicate: RDF_FIRST@, object: objs[0] };
        let t1 = SpecTriple {
            subject: n0,
            predicate: RDF_REST@,
            object: position_object(head_of(nodes.drop_first())),
        };
        assert(g == seq![t0, t1] + tail_chain);
        assert(g[0] == t0);
        assert(triple_matches(g[0], n0, RDF_FIRST@));
        let g1 = g.remove(0);
        assert(g1 =~= seq![t1] + tail_chain);
        assert(triple_matches(g1[0], n0, RDF_REST@));
        let g2 = g1.remove(0);
        assert(g2 =~= tail_chain);
        assert(spec_resolve(position_object(head_of(nodes.drop_first()))) == Some(
            head_of(nodes.drop_first()),
        ));
        assert(forall|k: int|
            0 <= k < items.drop_first().len() ==> object_matches(
                #[trigger] objs.drop_first()[k],
                items.drop_first()[k],
            ));
        assert(forall|k: int|
            0 <= k < nodes.drop_first().len() ==> valid_list_node(#[trigger] nodes.drop_first()[k]));
        lemma_walk_chain(nodes.drop_first(), objs.drop_first(), items.drop_first());
    }
}

/// Consumption completeness: a graph that encodes exactly the expected
/// sequence as an RDF list at `(s, p)` — the head statement, then for each
/// node one `first` statement whose object matches the corresponding item
/// and one `rest` statement linking to the next position — validates
/// successfully, and the validation consumes the whole encoding: nothing
/// remains in the graph.
pub proof fn lemma_list_consumption(
    s: SpecSubject,
    p: Seq<char>,
    nodes: Seq<SpecSubject>,
    objs: Seq<SpecObject>,
    items: Seq<SpecExpected>,
)
    requires
        nodes.len() == items.len(),
        objs.len() == items.len(),
        forall|k: int| 0 <= k < items.len() ==> object_matches(#[trigger] objs[k], items[k]),
        forall|k: int| 0 <= k < nodes.len() ==> valid_list_node(#[trigger] nodes[k]),
    ensures
        ({
            let g = seq![
                SpecTriple { subject: s, predicate: p, object: position_object(head_of(nodes)) },
            ] + spec_list_chain(nodes, objs);
            assert_eq_list_spec(g, s, p, Some(items)) == (
                Ok::<(), SpecError>(()),
                Seq::<SpecTriple>::empty(),
            )
        }),
{
    let head_triple = SpecTriple {
        subject: s,
        predicate: p,
        object: position_object(head_of(nodes)),
    };
    let g = seq![head_triple] + spec_list_chain(nodes, objs);
    assert(g[0] == head_triple);
    assert(triple_matches(g[0], s, p));
    assert(g.remove(0) =~= spec_list_chain(nodes, objs));
    assert(spec_resolve(position_object(head_of(nodes))) == Some(head_of(nodes)));
    lemma_walk_chain(nodes, objs, items);
}

} // verus!

