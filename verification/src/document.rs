//! Structured documents, as the body of a response carries them, and the
//! two ways of holding an observed document against a pattern.

use vstd::prelude::*;
use vstd::string::*;
use crate::render::{
    decimal, joined, lemma_joined_take, render_decimal, render_signed_decimal, signed_decimal,
    Render,
};

verus! {

/// A structured document: a scalar, a list of documents, or an object whose
/// fields are named documents.
#[derive(Debug)]
pub enum Document {
    /// The absence of a value.
    Null,
    /// A truth value.
    Bool(bool),
    /// An integer.
    Number(i64),
    /// A text.
    Text(String),
    /// Documents in order.
    List(Vec<Document>),
    /// Named documents. A name may occur more than once; no field hides
    /// another.
    Object(Vec<(String, Document)>),
}

/// A document as a mathematical value.
pub ghost enum DocumentView {
    Null,
    Bool(bool),
    Number(int),
    Text(Seq<char>),
    List(Seq<DocumentView>),
    Object(Seq<(Seq<char>, DocumentView)>),
}

/// What a document is as a mathematical value.
pub open spec fn view_of(document: Document) -> DocumentView
    decreases document,
{
    match document {
        Document::Null => DocumentView::Null,
        Document::Bool(value) => DocumentView::Bool(value),
        Document::Number(value) => DocumentView::Number(value as int),
        Document::Text(value) => DocumentView::Text(value@),
        Document::List(items) => DocumentView::List(
            Seq::new(
                items@.len(),
                |i: int|
                    if 0 <= i < items@.len() {
                        view_of(items@[i])
                    } else {
                        DocumentView::Null
                    },
            ),
        ),
        Document::Object(fields) => DocumentView::Object(
            Seq::new(
                fields@.len(),
                |i: int|
                    if 0 <= i < fields@.len() {
                        (fields@[i].0@, view_of(fields@[i].1))
                    } else {
                        (Seq::empty(), DocumentView::Null)
                    },
            ),
        ),
    }
}

impl View for Document {
    type V = DocumentView;

    open spec fn view(&self) -> DocumentView {
        view_of(*self)
    }
}

/// The items of a list, each as a mathematical value.
pub open spec fn item_views(items: Seq<Document>) -> Seq<DocumentView> {
    Seq::new(items.len(), |i: int| items[i]@)
}

/// The fields of an object, each as a mathematical value.
pub open spec fn field_views(fields: Seq<(String, Document)>) -> Seq<(Seq<char>, DocumentView)> {
    Seq::new(fields.len(), |i: int| (fields[i].0@, fields[i].1@))
}

/// A list is seen as the list of what its items are seen as.
pub proof fn lemma_list_view(items: Vec<Document>)
    ensures
        Document::List(items)@ == DocumentView::List(item_views(items@)),
{
    let seen = Document::List(items)@;
    assert(seen is List);
    assert(seen->List_0 =~= item_views(items@));
}

/// An object is seen as the list of what its fields are seen as.
pub proof fn lemma_object_view(fields: Vec<(String, Document)>)
    ensures
        Document::Object(fields)@ == DocumentView::Object(field_views(fields@)),
{
    let seen = Document::Object(fields)@;
    assert(seen is Object);
    assert(seen->Object_0 =~= field_views(fields@));
}

/// The body of an observed response.
#[derive(Debug)]
pub enum Body {
    /// The document that the body was read as.
    Document(Document),
    /// The body could not be read as a document.
    Unreadable,
}

impl View for Body {
    type V = Option<DocumentView>;

    open spec fn view(&self) -> Option<DocumentView> {
        match self {
            Body::Document(document) => Some(document@),
            Body::Unreadable => None,
        }
    }
}

impl Clone for Body {
    fn clone(&self) -> (copy: Self)
        ensures
            copy@ == self@,
    {
        match self {
            Body::Document(document) => Body::Document(document.clone()),
            Body::Unreadable => Body::Unreadable,
        }
    }
}

/// How an observed document is held against a pattern.
#[derive(Clone, Copy, Debug, PartialEq, Eq, Structural)]
pub enum MatchMode {
    /// The observed document holds what the pattern holds, and nothing
    /// else.
    Exact,
    /// The observed document holds what the pattern holds; what else its
    /// objects hold does not matter.
    Subset,
}

/// Whether `i` is the position of a field.
pub open spec fn within(fields: Seq<(Seq<char>, DocumentView)>, i: int) -> bool {
    0 <= i < fields.len()
}

/// Whether field `i` of `pattern` and field `j` of `observed` have the same
/// name.
pub open spec fn same_name(
    pattern: Seq<(Seq<char>, DocumentView)>,
    i: int,
    observed: Seq<(Seq<char>, DocumentView)>,
    j: int,
) -> bool {
    &&& 0 <= i < pattern.len()
    &&& 0 <= j < observed.len()
    &&& pattern[i].0 == observed[j].0
}

/// Whether an observed document agrees with a pattern.
///
/// Two scalars agree when they are equal. Two lists agree when they have
/// the same length and their items agree, position by position. Two
/// objects agree when every field of the pattern has a field of the same
/// name in the observed object whose value agrees with its own; under
/// [`MatchMode::Exact`] every field of the observed object must in turn
/// have such a field in the pattern. Documents of different kinds never
/// agree.
pub open spec fn agrees(pattern: DocumentView, observed: DocumentView, mode: MatchMode) -> bool
    decreases pattern,
{
    match (pattern, observed) {
        (DocumentView::Null, DocumentView::Null) => true,
        (DocumentView::Bool(p), DocumentView::Bool(o)) => p == o,
        (DocumentView::Number(p), DocumentView::Number(o)) => p == o,
        (DocumentView::Text(p), DocumentView::Text(o)) => p == o,
        (DocumentView::List(p), DocumentView::List(o)) => {
            &&& p.len() == o.len()
            &&& forall|i: int| 0 <= i < p.len() ==> agrees(#[trigger] p[i], o[i], mode)
        },
        (DocumentView::Object(p), DocumentView::Object(o)) => {
            &&& forall|i: int| #[trigger]
                within(p, i) ==> exists|j: int|
                    #![trigger same_name(p, i, o, j)]
                    same_name(p, i, o, j) && agrees(p[i].1, o[j].1, mode)
            &&& mode == MatchMode::Exact ==> forall|j: int| #[trigger]
                within(o, j) ==> exists|i: int|
                    #![trigger same_name(p, i, o, j)]
                    same_name(p, i, o, j) && agrees(p[i].1, o[j].1, mode)
        },
        _ => false,
    }
}

/// Whether field `j` of `observed` answers field `i` of `pattern`: both
/// have the same name, and their values agree.
pub open spec fn answers(
    pattern: Seq<(Seq<char>, DocumentView)>,
    i: int,
    observed: Seq<(Seq<char>, DocumentView)>,
    j: int,
    mode: MatchMode,
) -> bool {
    same_name(pattern, i, observed, j) && agrees(pattern[i].1, observed[j].1, mode)
}

/// Whether some field of `observed` answers field `i` of `pattern`.
pub open spec fn has_answer(
    pattern: Seq<(Seq<char>, DocumentView)>,
    i: int,
    observed: Seq<(Seq<char>, DocumentView)>,
    mode: MatchMode,
) -> bool {
    exists|j: int|
        #![trigger same_name(pattern, i, observed, j)]
        same_name(pattern, i, observed, j) && agrees(pattern[i].1, observed[j].1, mode)
}

/// Whether field `j` of `observed` answers some field of `pattern`.
pub open spec fn is_asked_for(
    pattern: Seq<(Seq<char>, DocumentView)>,
    observed: Seq<(Seq<char>, DocumentView)>,
    j: int,
    mode: MatchMode,
) -> bool {
    exists|i: int|
        #![trigger same_name(pattern, i, observed, j)]
        same_name(pattern, i, observed, j) && agrees(pattern[i].1, observed[j].1, mode)
}

/// Two objects agree when every field of the pattern has an answer and,
/// under [`MatchMode::Exact`], every field of the observed object is asked
/// for.
pub proof fn lemma_objects_agree(
    pattern: Seq<(Seq<char>, DocumentView)>,
    observed: Seq<(Seq<char>, DocumentView)>,
    mode: MatchMode,
)
    ensures
        agrees(DocumentView::Object(pattern), DocumentView::Object(observed), mode) <==> {
            &&& forall|i: int|
                0 <= i < pattern.len() ==> #[trigger] has_answer(pattern, i, observed, mode)
            &&& mode == MatchMode::Exact ==> forall|j: int|
                0 <= j < observed.len() ==> #[trigger] is_asked_for(pattern, observed, j, mode)
        },
{
    let p = DocumentView::Object(pattern);
    let o = DocumentView::Object(observed);
    assert(p->Object_0 == pattern && o->Object_0 == observed);
    if agrees(p, o, mode) {
        assert forall|i: int| 0 <= i < pattern.len() implies #[trigger] has_answer(
            pattern,
            i,
            observed,
            mode,
        ) by {
            assert(within(pattern, i));
        }
        if mode == MatchMode::Exact {
            assert forall|j: int| 0 <= j < observed.len() implies #[trigger] is_asked_for(
                pattern,
                observed,
                j,
                mode,
            ) by {
                assert(within(observed, j));
            }
        }
    }
    if (forall|i: int| 0 <= i < pattern.len() ==> #[trigger] has_answer(pattern, i, observed, mode))
        && (mode == MatchMode::Exact ==> forall|j: int|
        0 <= j < observed.len() ==> #[trigger] is_asked_for(pattern, observed, j, mode)) {
        assert forall|i: int| #[trigger] within(pattern, i) implies has_answer(
            pattern,
            i,
            observed,
            mode,
        ) by {}
        if mode == MatchMode::Exact {
            assert forall|j: int| #[trigger] within(observed, j) implies is_asked_for(
                pattern,
                observed,
                j,
                mode,
            ) by {}
        }
        assert(agrees(p, o, mode));
    }
}

/// The observed document is deeply equal to the pattern.
pub open spec fn deeply_equal(pattern: DocumentView, observed: DocumentView) -> bool {
    agrees(pattern, observed, MatchMode::Exact)
}

/// The observed document holds the pattern: every field of the pattern has
/// an equal counterpart in it.
pub open spec fn holds_pattern(pattern: DocumentView, observed: DocumentView) -> bool {
    agrees(pattern, observed, MatchMode::Subset)
}

/// Every document agrees with itself, in either mode.
pub proof fn lemma_agrees_with_itself(document: DocumentView, mode: MatchMode)
    ensures
        agrees(document, document, mode),
    decreases document,
{
    match document {
        DocumentView::List(items) => {
            assert forall|i: int| 0 <= i < items.len() implies agrees(
                #[trigger] items[i],
                items[i],
                mode,
            ) by {
                lemma_agrees_with_itself(items[i], mode);
            }
        },
        DocumentView::Object(fields) => {
            assert forall|i: int| 0 <= i < fields.len() implies #[trigger] has_answer(
                fields,
                i,
                fields,
                mode,
            ) by {
                lemma_agrees_with_itself(fields[i].1, mode);
                assert(same_name(fields, i, fields, i));
            }
            assert forall|j: int| 0 <= j < fields.len() implies #[trigger] is_asked_for(
                fields,
                fields,
                j,
                mode,
            ) by {
                lemma_agrees_with_itself(fields[j].1, mode);
                assert(same_name(fields, j, fields, j));
            }
            lemma_objects_agree(fields, fields, mode);
        },
        _ => {},
    }
}

/// A document that is deeply equal to a pattern holds the pattern.
pub proof fn lemma_equal_holds_pattern(pattern: DocumentView, observed: DocumentView)
    requires
        deeply_equal(pattern, observed),
    ensures
        holds_pattern(pattern, observed),
    decreases pattern,
{
    match (pattern, observed) {
        (DocumentView::List(p), DocumentView::List(o)) => {
            assert forall|i: int| 0 <= i < p.len() implies agrees(
                #[trigger] p[i],
                o[i],
                MatchMode::Subset,
            ) by {
                lemma_equal_holds_pattern(p[i], o[i]);
            }
        },
        (DocumentView::Object(p), DocumentView::Object(o)) => {
            lemma_objects_agree(p, o, MatchMode::Exact);
            assert forall|i: int| 0 <= i < p.len() implies #[trigger] has_answer(
                p,
                i,
                o,
                MatchMode::Subset,
            ) by {
                assert(has_answer(p, i, o, MatchMode::Exact));
                let j = choose|j: int| #[trigger]
                    same_name(p, i, o, j) && agrees(p[i].1, o[j].1, MatchMode::Exact);
                lemma_equal_holds_pattern(p[i].1, o[j].1);
            }
            lemma_objects_agree(p, o, MatchMode::Subset);
        },
        _ => {},
    }
}

/// Deep equality does not depend on which of two documents is taken for
/// the pattern.
pub proof fn lemma_deeply_equal_is_symmetric(pattern: DocumentView, observed: DocumentView)
    requires
        deeply_equal(pattern, observed),
    ensures
        deeply_equal(observed, pattern),
    decreases pattern,
{
    let mode = MatchMode::Exact;
    match (pattern, observed) {
        (DocumentView::List(p), DocumentView::List(o)) => {
            assert forall|i: int| 0 <= i < o.len() implies agrees(#[trigger] o[i], p[i], mode) by {
                assert(agrees(p[i], o[i], mode));
                lemma_deeply_equal_is_symmetric(p[i], o[i]);
            }
        },
        (DocumentView::Object(p), DocumentView::Object(o)) => {
            lemma_objects_agree(p, o, mode);
            assert forall|j: int| 0 <= j < o.len() implies #[trigger] has_answer(
                o,
                j,
                p,
                mode,
            ) by {
                assert(is_asked_for(p, o, j, mode));
                let i = choose|i: int| #[trigger]
                    same_name(p, i, o, j) && agrees(p[i].1, o[j].1, mode);
                lemma_deeply_equal_is_symmetric(p[i].1, o[j].1);
                assert(same_name(o, j, p, i));
            }
            assert forall|i: int| 0 <= i < p.len() implies #[trigger] is_asked_for(
                o,
                p,
                i,
                mode,
            ) by {
                assert(has_answer(p, i, o, mode));
                let j = choose|j: int| #[trigger]
                    same_name(p, i, o, j) && agrees(p[i].1, o[j].1, mode);
                lemma_deeply_equal_is_symmetric(p[i].1, o[j].1);
                assert(same_name(o, j, p, i));
            }
            lemma_objects_agree(o, p, mode);
        },
        _ => {},
    }
}

/// Agreement carries over: a document that agrees with a second one, which
/// agrees with a third, agrees with the third.
pub proof fn lemma_agreement_carries_over(
    first: DocumentView,
    second: DocumentView,
    third: DocumentView,
    mode: MatchMode,
)
    requires
        agrees(first, second, mode),
        agrees(second, third, mode),
    ensures
        agrees(first, third, mode),
    decreases first,
{
    match (first, second, third) {
        (DocumentView::List(a), DocumentView::List(b), DocumentView::List(c)) => {
            assert forall|i: int| 0 <= i < a.len() implies agrees(#[trigger] a[i], c[i], mode) by {
                assert(agrees(a[i], b[i], mode));
                assert(agrees(b[i], c[i], mode));
                lemma_agreement_carries_over(a[i], b[i], c[i], mode);
            }
        },
        (DocumentView::Object(a), DocumentView::Object(b), DocumentView::Object(c)) => {
            lemma_objects_agree(a, b, mode);
            lemma_objects_agree(b, c, mode);
            assert forall|i: int| 0 <= i < a.len() implies #[trigger] has_answer(
                a,
                i,
                c,
                mode,
            ) by {
                assert(has_answer(a, i, b, mode));
                let j = choose|j: int| #[trigger]
                    same_name(a, i, b, j) && agrees(a[i].1, b[j].1, mode);
                assert(has_answer(b, j, c, mode));
                let k = choose|k: int| #[trigger]
                    same_name(b, j, c, k) && agrees(b[j].1, c[k].1, mode);
                lemma_agreement_carries_over(a[i].1, b[j].1, c[k].1, mode);
                assert(same_name(a, i, c, k));
            }
            if mode == MatchMode::Exact {
                assert forall|k: int| 0 <= k < c.len() implies #[trigger] is_asked_for(
                    a,
                    c,
                    k,
                    mode,
                ) by {
                    assert(is_asked_for(b, c, k, mode));
                    let j = choose|j: int| #[trigger]
                        same_name(b, j, c, k) && agrees(b[j].1, c[k].1, mode);
                    assert(is_asked_for(a, b, j, mode));
                    let i = choose|i: int| #[trigger]
                        same_name(a, i, b, j) && agrees(a[i].1, b[j].1, mode);
                    lemma_agreement_carries_over(a[i].1, b[j].1, c[k].1, mode);
                    assert(same_name(a, i, c, k));
                }
            }
            lemma_objects_agree(a, c, mode);
        },
        _ => {},
    }
}

/// An observed object that holds a pattern still holds it with one more
/// field, wherever the field is put.
pub proof fn lemma_extra_field_is_ignored(
    pattern: Seq<(Seq<char>, DocumentView)>,
    observed: Seq<(Seq<char>, DocumentView)>,
    position: int,
    extra: (Seq<char>, DocumentView),
)
    requires
        0 <= position <= observed.len(),
        holds_pattern(DocumentView::Object(pattern), DocumentView::Object(observed)),
    ensures
        holds_pattern(
            DocumentView::Object(pattern),
            DocumentView::Object(observed.insert(position, extra)),
        ),
{
    let mode = MatchMode::Subset;
    let wider = observed.insert(position, extra);
    lemma_objects_agree(pattern, observed, mode);
    assert forall|i: int| 0 <= i < pattern.len() implies #[trigger] has_answer(
        pattern,
        i,
        wider,
        mode,
    ) by {
        assert(has_answer(pattern, i, observed, mode));
        let j = choose|j: int| #[trigger]
            same_name(pattern, i, observed, j) && agrees(pattern[i].1, observed[j].1, mode);
        let moved = if j < position {
            j
        } else {
            j + 1
        };
        assert(wider[moved] == observed[j]);
        assert(same_name(pattern, i, wider, moved));
    }
    lemma_objects_agree(pattern, wider, mode);
}

/// One step on the way from a document to a part of it.
#[derive(Debug)]
pub enum Step {
    /// The field of this name, in an object.
    Key(String),
    /// The item at this position, in a list.
    Index(usize),
}

/// A step as a mathematical value.
pub ghost enum StepView {
    Key(Seq<char>),
    Index(int),
}

impl View for Step {
    type V = StepView;

    open spec fn view(&self) -> StepView {
        match self {
            Step::Key(name) => StepView::Key(name@),
            Step::Index(position) => StepView::Index(*position as int),
        }
    }
}

/// A path as a mathematical value.
pub open spec fn path_view(steps: Seq<Step>) -> Seq<StepView> {
    steps.map_values(|step: Step| step@)
}

/// Whether some field has this name.
pub open spec fn has_name(fields: Seq<(Seq<char>, DocumentView)>, name: Seq<char>) -> bool {
    exists|i: int| 0 <= i < fields.len() && (#[trigger] fields[i]).0 == name
}

/// Whether field `i` of `pattern` and field `j` of `observed` both have
/// this name.
pub open spec fn share_name(
    pattern: Seq<(Seq<char>, DocumentView)>,
    i: int,
    observed: Seq<(Seq<char>, DocumentView)>,
    j: int,
    name: Seq<char>,
) -> bool {
    &&& 0 <= i < pattern.len()
    &&& 0 <= j < observed.len()
    &&& pattern[i].0 == name
    &&& observed[j].0 == name
}

/// Whether the observed document departs from the pattern at the end of
/// `path`.
///
/// The path leads through items that both lists have and through fields
/// whose name both objects have. Where it ends, the two documents are of
/// different kinds, are scalars that differ, or are lists of different
/// lengths; or its last step is a name that the pattern has and the
/// observed object lacks, or, under [`MatchMode::Exact`], one that the
/// observed object has and the pattern lacks.
pub open spec fn departs_at(
    pattern: DocumentView,
    observed: DocumentView,
    mode: MatchMode,
    path: Seq<StepView>,
) -> bool
    decreases path.len(),
{
    if path.len() == 0 {
        match (pattern, observed) {
            (DocumentView::Null, DocumentView::Null) => false,
            (DocumentView::Bool(p), DocumentView::Bool(o)) => p != o,
            (DocumentView::Number(p), DocumentView::Number(o)) => p != o,
            (DocumentView::Text(p), DocumentView::Text(o)) => p != o,
            (DocumentView::List(p), DocumentView::List(o)) => p.len() != o.len(),
            (DocumentView::Object(_), DocumentView::Object(_)) => false,
            _ => true,
        }
    } else {
        match (path[0], pattern, observed) {
            (StepView::Index(at), DocumentView::List(p), DocumentView::List(o)) => {
                &&& p.len() == o.len()
                &&& 0 <= at < p.len()
                &&& departs_at(p[at], o[at], mode, path.skip(1))
            },
            (StepView::Key(name), DocumentView::Object(p), DocumentView::Object(o)) => {
                ||| path.len() == 1 && has_name(p, name) && !has_name(o, name)
                ||| path.len() == 1 && mode == MatchMode::Exact && has_name(o, name) && !has_name(
                    p,
                    name,
                )
                ||| exists|i: int, j: int| #[trigger]
                    share_name(p, i, o, j, name) && departs_at(p[i].1, o[j].1, mode, path.skip(1))
            },
            _ => false,
        }
    }
}

/// Looks among the fields of `observed` for one that answers field `at` of
/// `pattern`. Gives its position, or else a path to where the first field
/// of that name departs, or to the name itself where no field has it.
fn find_answer(
    pattern: &Vec<(String, Document)>,
    at: usize,
    observed: &Vec<(String, Document)>,
    mode: MatchMode,
) -> (found: Result<usize, Vec<Step>>)
    requires
        at < pattern.len(),
    ensures
        found matches Ok(j) ==> answers(
            field_views(pattern@),
            at as int,
            field_views(observed@),
            j as int,
            mode,
        ),
        found matches Err(steps) ==> {
            &&& !has_answer(field_views(pattern@), at as int, field_views(observed@), mode)
            &&& departs_at(
                DocumentView::Object(field_views(pattern@)),
                DocumentView::Object(field_views(observed@)),
                mode,
                path_view(steps@),
            )
        },
    decreases pattern, 0int,
{
    let ghost p = field_views(pattern@);
    let ghost o = field_views(observed@);
    let ghost name = p[at as int].0;
    let mut first: Option<Vec<Step>> = None;
    let mut j: usize = 0;
    while j < observed.len()
        invariant
            at < pattern.len(),
            j <= observed.len(),
            p == field_views(pattern@),
            o == field_views(observed@),
            name == p[at as int].0,
            forall|k: int|
                0 <= k < j ==> !(#[trigger] same_name(p, at as int, o, k) && agrees(
                    p[at as int].1,
                    o[k].1,
                    mode,
                )),
            first is None ==> forall|k: int| 0 <= k < j ==> (#[trigger] o[k]).0 != name,
            first matches Some(steps) ==> exists|k: int| #[trigger]
                share_name(p, at as int, o, k, name) && departs_at(
                    p[at as int].1,
                    o[k].1,
                    mode,
                    path_view(steps@),
                ),
        decreases observed.len() - j,
    {
        if pattern[at].0 == observed[j].0 {
            match pattern[at].1.departure(&observed[j].1, mode) {
                None => {
                    return Ok(j);
                },
                Some(steps) => {
                    if first.is_none() {
                        proof {
                            assert(share_name(p, at as int, o, j as int, name));
                        }
                        first = Some(steps);
                    }
                },
            }
        }
        j += 1;
    }
    proof {
        let whole_pattern = DocumentView::Object(p);
        let whole_observed = DocumentView::Object(o);
        assert(whole_pattern->Object_0 == p && whole_observed->Object_0 == o);
    }
    let key = Step::Key(pattern[at].0.clone());
    match first {
        None => {
            let mut steps: Vec<Step> = Vec::new();
            steps.push(key);
            proof {
                let path = path_view(steps@);
                assert(path.len() == 1);
                assert(path[0] == StepView::Key(name));
                assert(p[at as int].0 == name);
                assert(has_name(p, name));
                assert(!has_name(o, name));
            }
            Err(steps)
        },
        Some(steps) => {
            let mut steps = steps;
            let ghost rest = path_view(steps@);
            steps.insert(0, key);
            proof {
                let path = path_view(steps@);
                assert(path[0] == StepView::Key(name) && path[0]->Key_0 == name);
                assert(path.skip(1) =~= rest);
            }
            Err(steps)
        },
    }
}

/// Looks among the fields of `pattern` for one that field `at` of
/// `observed` answers. Gives its position, or else a path to where the
/// first field of that name departs, or to the name itself where no field
/// has it.
fn find_asker(
    pattern: &Vec<(String, Document)>,
    observed: &Vec<(String, Document)>,
    at: usize,
) -> (found: Result<usize, Vec<Step>>)
    requires
        at < observed.len(),
    ensures
        found matches Ok(i) ==> answers(
            field_views(pattern@),
            i as int,
            field_views(observed@),
            at as int,
            MatchMode::Exact,
        ),
        found matches Err(steps) ==> {
            &&& !is_asked_for(
                field_views(pattern@),
                field_views(observed@),
                at as int,
                MatchMode::Exact,
            )
            &&& departs_at(
                DocumentView::Object(field_views(pattern@)),
                DocumentView::Object(field_views(observed@)),
                MatchMode::Exact,
                path_view(steps@),
            )
        },
    decreases pattern, 0int,
{
    let ghost p = field_views(pattern@);
    let ghost o = field_views(observed@);
    let ghost name = o[at as int].0;
    let mode = MatchMode::Exact;
    let mut first: Option<Vec<Step>> = None;
    let mut i: usize = 0;
    while i < pattern.len()
        invariant
            at < observed.len(),
            i <= pattern.len(),
            mode == MatchMode::Exact,
            p == field_views(pattern@),
            o == field_views(observed@),
            name == o[at as int].0,
            forall|k: int|
                0 <= k < i ==> !(#[trigger] same_name(p, k, o, at as int) && agrees(
                    p[k].1,
                    o[at as int].1,
                    mode,
                )),
            first is None ==> forall|k: int| 0 <= k < i ==> (#[trigger] p[k]).0 != name,
            first matches Some(steps) ==> exists|k: int| #[trigger]
                share_name(p, k, o, at as int, name) && departs_at(
                    p[k].1,
                    o[at as int].1,
                    mode,
                    path_view(steps@),
                ),
        decreases pattern.len() - i,
    {
        if pattern[i].0 == observed[at].0 {
            match pattern[i].1.departure(&observed[at].1, mode) {
                None => {
                    return Ok(i);
                },
                Some(steps) => {
                    if first.is_none() {
                        proof {
                            assert(share_name(p, i as int, o, at as int, name));
                        }
                        first = Some(steps);
                    }
                },
            }
        }
        i += 1;
    }
    proof {
        let whole_pattern = DocumentView::Object(p);
        let whole_observed = DocumentView::Object(o);
        assert(whole_pattern->Object_0 == p && whole_observed->Object_0 == o);
    }
    let key = Step::Key(observed[at].0.clone());
    match first {
        None => {
            let mut steps: Vec<Step> = Vec::new();
            steps.push(key);
            proof {
                let path = path_view(steps@);
                assert(path.len() == 1);
                assert(path[0] == StepView::Key(name));
                assert(o[at as int].0 == name);
                assert(has_name(o, name));
                assert(!has_name(p, name));
            }
            Err(steps)
        },
        Some(steps) => {
            let mut steps = steps;
            let ghost rest = path_view(steps@);
            steps.insert(0, key);
            proof {
                let path = path_view(steps@);
                assert(path[0] == StepView::Key(name) && path[0]->Key_0 == name);
                assert(path.skip(1) =~= rest);
            }
            Err(steps)
        },
    }
}

/// Holds the fields of an observed object against those of a pattern.
fn object_departure(
    pattern: &Vec<(String, Document)>,
    observed: &Vec<(String, Document)>,
    mode: MatchMode,
) -> (path: Option<Vec<Step>>)
    ensures
        path.is_none() <==> agrees(
            DocumentView::Object(field_views(pattern@)),
            DocumentView::Object(field_views(observed@)),
            mode,
        ),
        path matches Some(steps) ==> departs_at(
            DocumentView::Object(field_views(pattern@)),
            DocumentView::Object(field_views(observed@)),
            mode,
            path_view(steps@),
        ),
    decreases pattern, 1int,
{
    let ghost p = field_views(pattern@);
    let ghost o = field_views(observed@);
    // answered[j]: field j of the observed object is known to answer a
    // field of the pattern.
    let mut answered: Vec<bool> = Vec::new();
    while answered.len() < observed.len()
        invariant
            answered.len() <= observed.len(),
            forall|j: int| 0 <= j < answered.len() ==> !answered@[j],
        decreases observed.len() - answered.len(),
    {
        answered.push(false);
    }
    let mut i: usize = 0;
    while i < pattern.len()
        invariant
            i <= pattern.len(),
            answered.len() == observed.len(),
            p == field_views(pattern@),
            o == field_views(observed@),
            forall|k: int| 0 <= k < i ==> #[trigger] has_answer(p, k, o, mode),
            forall|j: int|
                0 <= j < observed.len() && answered@[j] ==> #[trigger] is_asked_for(p, o, j, mode),
        decreases pattern.len() - i,
    {
        match find_answer(pattern, i, observed, mode) {
            Ok(j) => {
                answered.set(j, true);
                proof {
                    assert(same_name(p, i as int, o, j as int));
                    assert(has_answer(p, i as int, o, mode));
                    assert(is_asked_for(p, o, j as int, mode));
                }
            },
            Err(steps) => {
                proof {
                    lemma_objects_agree(p, o, mode);
                }
                return Some(steps);
            },
        }
        i += 1;
    }
    match mode {
        MatchMode::Exact => {
            let mut j: usize = 0;
            while j < observed.len()
                invariant
                    j <= observed.len(),
                    mode == MatchMode::Exact,
                    answered.len() == observed.len(),
                    p == field_views(pattern@),
                    o == field_views(observed@),
                    forall|k: int| 0 <= k < j ==> #[trigger] is_asked_for(p, o, k, mode),
                    forall|k: int|
                        0 <= k < observed.len() && answered@[k] ==> #[trigger] is_asked_for(
                            p,
                            o,
                            k,
                            mode,
                        ),
                decreases observed.len() - j,
            {
                if !answered[j] {
                    match find_asker(pattern, observed, j) {
                        Ok(i) => {
                            proof {
                                assert(same_name(p, i as int, o, j as int));
                                assert(is_asked_for(p, o, j as int, mode));
                            }
                        },
                        Err(steps) => {
                            proof {
                                lemma_objects_agree(p, o, mode);
                            }
                            return Some(steps);
                        },
                    }
                }
                j += 1;
            }
        },
        MatchMode::Subset => {},
    }
    proof {
        lemma_objects_agree(p, o, mode);
    }
    None
}

/// Holds the items of an observed list against those of a pattern.
fn list_departure(pattern: &Vec<Document>, observed: &Vec<Document>, mode: MatchMode) -> (path:
    Option<Vec<Step>>)
    ensures
        path.is_none() <==> agrees(
            DocumentView::List(item_views(pattern@)),
            DocumentView::List(item_views(observed@)),
            mode,
        ),
        path matches Some(steps) ==> departs_at(
            DocumentView::List(item_views(pattern@)),
            DocumentView::List(item_views(observed@)),
            mode,
            path_view(steps@),
        ),
    decreases pattern, 1int,
{
    let ghost p = item_views(pattern@);
    let ghost o = item_views(observed@);
    if pattern.len() != observed.len() {
        let steps: Vec<Step> = Vec::new();
        proof {
            assert(path_view(steps@).len() == 0);
        }
        return Some(steps);
    }
    let mut index: usize = 0;
    while index < pattern.len()
        invariant
            pattern.len() == observed.len(),
            index <= pattern.len(),
            p == item_views(pattern@),
            o == item_views(observed@),
            forall|k: int| 0 <= k < index ==> agrees(#[trigger] p[k], o[k], mode),
        decreases pattern.len() - index,
    {
        match pattern[index].departure(&observed[index], mode) {
            Some(steps) => {
                let mut steps = steps;
                let ghost rest = path_view(steps@);
                steps.insert(0, Step::Index(index));
                proof {
                    let path = path_view(steps@);
                    assert(path[0] == StepView::Index(index as int));
                    assert(path.skip(1) =~= rest);
                    assert(!agrees(p[index as int], o[index as int], mode));
                }
                return Some(steps);
            },
            None => {},
        }
        index += 1;
    }
    None
}

impl Document {
    /// Holds an observed document against `self`, the pattern. Returns
    /// `None` where the two agree, and otherwise the path to a place where
    /// the observed document departs from the pattern.
    pub fn departure(&self, observed: &Document, mode: MatchMode) -> (path: Option<Vec<Step>>)
        ensures
            path.is_none() <==> agrees(self@, observed@, mode),
            path matches Some(steps) ==> departs_at(self@, observed@, mode, path_view(steps@)),
        decreases self, 2int,
    {
        let here: Option<Vec<Step>> = Some(Vec::new());
        proof {
            assert(path_view(here->0@).len() == 0);
        }
        match self {
            Document::Null => match observed {
                Document::Null => None,
                _ => here,
            },
            Document::Bool(p) => match observed {
                Document::Bool(o) => if *p == *o {
                    None
                } else {
                    here
                },
                _ => here,
            },
            Document::Number(p) => match observed {
                Document::Number(o) => if *p == *o {
                    None
                } else {
                    here
                },
                _ => here,
            },
            Document::Text(p) => match observed {
                Document::Text(o) => if *p == *o {
                    None
                } else {
                    here
                },
                _ => here,
            },
            Document::List(p) => match observed {
                Document::List(o) => {
                    proof {
                        lemma_list_view(*p);
                        lemma_list_view(*o);
                    }
                    list_departure(p, o, mode)
                },
                _ => here,
            },
            Document::Object(p) => match observed {
                Document::Object(o) => {
                    proof {
                        lemma_object_view(*p);
                        lemma_object_view(*o);
                    }
                    object_departure(p, o, mode)
                },
                _ => here,
            },
        }
    }
}

/// How a report shows a document: scalars as they are written, text
/// between double quotes, lists between brackets and objects between
/// braces, with a comma and a space between each two items or fields.
/// Text is shown as it is, with no character escaped.
pub open spec fn document_text(document: DocumentView) -> Seq<char>
    decreases document, 1int,
{
    match document {
        DocumentView::Null => "null"@,
        DocumentView::Bool(value) => if value {
            "true"@
        } else {
            "false"@
        },
        DocumentView::Number(value) => signed_decimal(value),
        DocumentView::Text(value) => "\""@ + value + "\""@,
        DocumentView::List(items) => "["@ + joined(item_texts(items)) + "]"@,
        DocumentView::Object(fields) => "{"@ + joined(field_texts(fields)) + "}"@,
    }
}

/// How a report shows each item of a list.
pub open spec fn item_texts(items: Seq<DocumentView>) -> Seq<Seq<char>>
    decreases items, 0int,
{
    Seq::new(
        items.len(),
        |i: int|
            if 0 <= i < items.len() {
                document_text(items[i])
            } else {
                Seq::empty()
            },
    )
}

/// How a report shows each field of an object: the name between double
/// quotes, a colon, the value.
pub open spec fn field_texts(fields: Seq<(Seq<char>, DocumentView)>) -> Seq<Seq<char>>
    decreases fields, 0int,
{
    Seq::new(
        fields.len(),
        |i: int|
            if 0 <= i < fields.len() {
                "\""@ + fields[i].0 + "\": "@ + document_text(fields[i].1)
            } else {
                Seq::empty()
            },
    )
}

/// Writes the items of a list out, between brackets.
fn write_list(items: &Vec<Document>) -> (text: String)
    ensures
        text@ == "["@ + joined(item_texts(item_views(items@))) + "]"@,
    decreases items, 0int,
{
    let ghost parts = item_texts(item_views(items@));
    let mut text = "[".to_owned();
    let mut index: usize = 0;
    assert(parts.take(0) =~= Seq::<Seq<char>>::empty());
    assert(text@ =~= "["@ + joined(parts.take(0)));
    while index < items.len()
        invariant
            index <= items.len(),
            parts == item_texts(item_views(items@)),
            parts.len() == items.len(),
            text@ == "["@ + joined(parts.take(index as int)),
        decreases items.len() - index,
    {
        if index > 0 {
            text.append(", ");
        }
        let item = items[index].write();
        text.append(item.as_str());
        proof {
            lemma_joined_take(parts, index as int);
            assert(parts[index as int] == document_text(items@[index as int]@));
            if index == 0 {
                assert(text@ =~= "["@ + parts[0]);
            } else {
                assert(text@ =~= "["@ + (joined(parts.take(index as int)) + ", "@
                    + parts[index as int]));
            }
        }
        index += 1;
    }
    proof {
        assert(parts.take(index as int) =~= parts);
    }
    text.append("]");
    text
}

/// Writes the fields of an object out, between braces.
fn write_object(fields: &Vec<(String, Document)>) -> (text: String)
    ensures
        text@ == "{"@ + joined(field_texts(field_views(fields@))) + "}"@,
    decreases fields, 0int,
{
    let ghost parts = field_texts(field_views(fields@));
    let mut text = "{".to_owned();
    let mut index: usize = 0;
    assert(parts.take(0) =~= Seq::<Seq<char>>::empty());
    assert(text@ =~= "{"@ + joined(parts.take(0)));
    while index < fields.len()
        invariant
            index <= fields.len(),
            parts == field_texts(field_views(fields@)),
            parts.len() == fields.len(),
            text@ == "{"@ + joined(parts.take(index as int)),
        decreases fields.len() - index,
    {
        if index > 0 {
            text.append(", ");
        }
        let value = fields[index].1.write();
        text.append("\"");
        text.append(fields[index].0.as_str());
        text.append("\": ");
        text.append(value.as_str());
        proof {
            lemma_joined_take(parts, index as int);
            let field = field_views(fields@)[index as int];
            assert(field == (fields@[index as int].0@, fields@[index as int].1@));
            assert(parts[index as int] == "\""@ + field.0 + "\": "@ + document_text(field.1));
            if index == 0 {
                assert(text@ =~= "{"@ + parts[0]);
            } else {
                assert(text@ =~= "{"@ + (joined(parts.take(index as int)) + ", "@
                    + parts[index as int]));
            }
        }
        index += 1;
    }
    proof {
        assert(parts.take(index as int) =~= parts);
    }
    text.append("}");
    text
}

/// Copies the items of a list.
fn copy_list(items: &Vec<Document>) -> (copies: Vec<Document>)
    ensures
        item_views(copies@) == item_views(items@),
    decreases items, 0int,
{
    let mut copies: Vec<Document> = Vec::new();
    let mut index: usize = 0;
    while index < items.len()
        invariant
            index <= items.len(),
            copies.len() == index,
            forall|k: int| 0 <= k < index ==> (#[trigger] copies@[k])@ == items@[k]@,
        decreases items.len() - index,
    {
        copies.push(items[index].duplicate());
        index += 1;
    }
    assert(item_views(copies@) =~= item_views(items@));
    copies
}

/// Copies the fields of an object.
fn copy_object(fields: &Vec<(String, Document)>) -> (copies: Vec<(String, Document)>)
    ensures
        field_views(copies@) == field_views(fields@),
    decreases fields, 0int,
{
    let mut copies: Vec<(String, Document)> = Vec::new();
    let mut index: usize = 0;
    while index < fields.len()
        invariant
            index <= fields.len(),
            copies.len() == index,
            forall|k: int|
                0 <= k < index ==> (#[trigger] copies@[k]).0@ == fields@[k].0@ && copies@[k].1@
                    == fields@[k].1@,
        decreases fields.len() - index,
    {
        copies.push((fields[index].0.clone(), fields[index].1.duplicate()));
        index += 1;
    }
    assert(field_views(copies@) =~= field_views(fields@));
    copies
}

impl Document {
    /// Writes the document out.
    fn write(&self) -> (text: String)
        ensures
            text@ == document_text(self@),
        decreases self, 1int,
    {
        match self {
            Document::Null => "null".to_owned(),
            Document::Bool(value) => if *value {
                "true".to_owned()
            } else {
                "false".to_owned()
            },
            Document::Number(value) => render_signed_decimal(*value),
            Document::Text(value) => {
                let mut text = "\"".to_owned();
                text.append(value.as_str());
                text.append("\"");
                text
            },
            Document::List(items) => {
                proof {
                    lemma_list_view(*items);
                }
                write_list(items)
            },
            Document::Object(fields) => {
                proof {
                    lemma_object_view(*fields);
                }
                write_object(fields)
            },
        }
    }

    /// Makes a copy of the document.
    fn duplicate(&self) -> (copy: Document)
        ensures
            copy@ == self@,
        decreases self, 1int,
    {
        match self {
            Document::Null => Document::Null,
            Document::Bool(value) => Document::Bool(*value),
            Document::Number(value) => Document::Number(*value),
            Document::Text(value) => Document::Text(value.clone()),
            Document::List(items) => {
                let copies = copy_list(items);
                proof {
                    lemma_list_view(*items);
                    lemma_list_view(copies);
                }
                Document::List(copies)
            },
            Document::Object(fields) => {
                let copies = copy_object(fields);
                proof {
                    lemma_object_view(*fields);
                    lemma_object_view(copies);
                }
                Document::Object(copies)
            },
        }
    }
}

impl Render for Document {
    open spec fn text(value: DocumentView) -> Seq<char> {
        document_text(value)
    }

    fn render(&self) -> (text: String) {
        self.write()
    }
}

impl Clone for Document {
    fn clone(&self) -> (copy: Self)
        ensures
            copy@ == self@,
    {
        self.duplicate()
    }
}

/// How a report shows one step: a field as a dot and its name, an item as
/// its position between brackets.
pub open spec fn step_text(step: StepView) -> Seq<char> {
    match step {
        StepView::Key(name) => "."@ + name,
        StepView::Index(position) => "["@ + decimal(position as nat) + "]"@,
    }
}

/// How a report shows a path: a dollar sign for the whole document, then
/// the steps in order.
pub open spec fn path_text(path: Seq<StepView>) -> Seq<char>
    decreases path.len(),
{
    if path.len() == 0 {
        "$"@
    } else {
        path_text(path.drop_last()) + step_text(path.last())
    }
}

/// Writes a path out.
pub fn render_path(steps: &Vec<Step>) -> (text: String)
    ensures
        text@ == path_text(path_view(steps@)),
{
    let ghost path = path_view(steps@);
    let mut text = "$".to_owned();
    let mut index: usize = 0;
    assert(path.take(0) =~= Seq::<StepView>::empty());
    while index < steps.len()
        invariant
            index <= steps.len(),
            path == path_view(steps@),
            text@ == path_text(path.take(index as int)),
        decreases steps.len() - index,
    {
        match &steps[index] {
            Step::Key(name) => {
                text.append(".");
                text.append(name.as_str());
            },
            Step::Index(position) => {
                let digits = render_decimal(*position as u64);
                text.append("[");
                text.append(digits.as_str());
                text.append("]");
            },
        }
        proof {
            let longer = path.take(index + 1);
            assert(longer.drop_last() =~= path.take(index as int));
            assert(longer.last() == steps@[index as int]@);
            assert(text@ =~= path_text(path.take(index as int)) + step_text(longer.last()));
        }
        index += 1;
    }
    proof {
        assert(path.take(index as int) =~= path);
    }
    text
}

} // verus!
