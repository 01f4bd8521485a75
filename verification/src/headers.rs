//! The headers of an observed response: name and value pairs, in the order
//! in which they came, a name possibly more than once.

use vstd::prelude::*;
use vstd::string::*;
use crate::render::{joined, lemma_joined_take, Render};

verus! {

/// One header: a name and its value.
#[derive(Debug)]
pub struct Header {
    pub name: String,
    pub value: String,
}

impl View for Header {
    type V = (Seq<char>, Seq<char>);

    open spec fn view(&self) -> (Seq<char>, Seq<char>) {
        (self.name@, self.value@)
    }
}

impl Clone for Header {
    fn clone(&self) -> (copy: Self)
        ensures
            copy@ == self@,
    {
        Header { name: self.name.clone(), value: self.value.clone() }
    }
}

/// Whether every pair of `expected` occurs in `observed`, name and value
/// alike. What else `observed` holds does not matter.
pub open spec fn includes(
    observed: Seq<(Seq<char>, Seq<char>)>,
    expected: Seq<(Seq<char>, Seq<char>)>,
) -> bool {
    forall|i: int| 0 <= i < expected.len() ==> observed.contains(#[trigger] expected[i])
}

/// The observed headers include the expected ones exactly when the set of
/// expected pairs is a subset of the set of observed pairs.
pub proof fn lemma_includes_is_subset(
    observed: Seq<(Seq<char>, Seq<char>)>,
    expected: Seq<(Seq<char>, Seq<char>)>,
)
    ensures
        includes(observed, expected) <==> expected.to_set().subset_of(observed.to_set()),
{
    if includes(observed, expected) {
        assert forall|pair: (Seq<char>, Seq<char>)|
            expected.to_set().contains(pair) implies observed.to_set().contains(pair) by {
            let i = choose|i: int| 0 <= i < expected.len() && expected[i] == pair;
            assert(observed.contains(expected[i]));
        }
    }
    if expected.to_set().subset_of(observed.to_set()) {
        assert forall|i: int| 0 <= i < expected.len() implies observed.contains(
            #[trigger] expected[i],
        ) by {
            assert(expected.to_set().contains(expected[i]));
            assert(observed.to_set().contains(expected[i]));
        }
    }
}

/// One more observed pair that is none of the expected ones changes
/// nothing, wherever it is put.
pub proof fn lemma_unrelated_pair_changes_nothing(
    observed: Seq<(Seq<char>, Seq<char>)>,
    expected: Seq<(Seq<char>, Seq<char>)>,
    position: int,
    pair: (Seq<char>, Seq<char>),
)
    requires
        0 <= position <= observed.len(),
        !expected.contains(pair),
    ensures
        includes(observed.insert(position, pair), expected) == includes(observed, expected),
{
    let wider = observed.insert(position, pair);
    if includes(observed, expected) {
        assert forall|i: int| 0 <= i < expected.len() implies wider.contains(
            #[trigger] expected[i],
        ) by {
            assert(observed.contains(expected[i]));
            let j = choose|j: int| 0 <= j < observed.len() && observed[j] == expected[i];
            let moved = if j < position {
                j
            } else {
                j + 1
            };
            assert(wider[moved] == expected[i]);
        }
    }
    if includes(wider, expected) {
        assert forall|i: int| 0 <= i < expected.len() implies observed.contains(
            #[trigger] expected[i],
        ) by {
            assert(wider.contains(expected[i]));
            let j = choose|j: int| 0 <= j < wider.len() && wider[j] == expected[i];
            assert(expected.contains(expected[i]));
            assert(j != position);
            let back = if j < position {
                j
            } else {
                j - 1
            };
            assert(observed[back] == expected[i]);
        }
    }
}

/// The observed headers with the value of every header of one name
/// replaced.
pub open spec fn with_value(
    observed: Seq<(Seq<char>, Seq<char>)>,
    name: Seq<char>,
    value: Seq<char>,
) -> Seq<(Seq<char>, Seq<char>)> {
    observed.map_values(
        |pair: (Seq<char>, Seq<char>)|
            if pair.0 == name {
                (name, value)
            } else {
                pair
            },
    )
}

/// Once the value of an expected header is changed in the observed
/// headers, they no longer include the expected ones.
pub proof fn lemma_changed_value_fails(
    observed: Seq<(Seq<char>, Seq<char>)>,
    expected: Seq<(Seq<char>, Seq<char>)>,
    name: Seq<char>,
    value: Seq<char>,
    other: Seq<char>,
)
    requires
        expected.contains((name, value)),
        other != value,
    ensures
        !includes(with_value(observed, name, other), expected),
{
    let changed = with_value(observed, name, other);
    let i = choose|i: int| 0 <= i < expected.len() && expected[i] == (name, value);
    if changed.contains(expected[i]) {
        let j = choose|j: int| 0 <= j < changed.len() && changed[j] == expected[i];
        assert(changed[j] == if observed[j].0 == name {
            (name, other)
        } else {
            observed[j]
        });
    }
}

/// How a report shows one header: the name, a colon, the value.
pub open spec fn pair_text(pair: (Seq<char>, Seq<char>)) -> Seq<char> {
    pair.0 + ": "@ + pair.1
}

/// How a report shows each header of a list.
pub open spec fn pair_texts(pairs: Seq<(Seq<char>, Seq<char>)>) -> Seq<Seq<char>> {
    pairs.map_values(|pair: (Seq<char>, Seq<char>)| pair_text(pair))
}

/// An ordered list of headers.
#[derive(Debug)]
pub struct Headers {
    entries: Vec<Header>,
}

impl View for Headers {
    type V = Seq<(Seq<char>, Seq<char>)>;

    closed spec fn view(&self) -> Seq<(Seq<char>, Seq<char>)> {
        self.entries@.map_values(|entry: Header| entry@)
    }
}

impl Headers {
    /// The empty list.
    pub fn new() -> (headers: Headers)
        ensures
            headers@ == Seq::<(Seq<char>, Seq<char>)>::empty(),
    {
        let headers = Headers { entries: Vec::new() };
        assert(headers@ =~= Seq::<(Seq<char>, Seq<char>)>::empty());
        headers
    }

    /// The list with one more header at its end.
    pub fn with(self, name: &str, value: &str) -> (headers: Headers)
        ensures
            headers@ == self@.push((name@, value@)),
    {
        let mut headers = self;
        headers.push(Header { name: name.to_owned(), value: value.to_owned() });
        headers
    }

    /// Puts one more header at the end of the list.
    pub fn push(&mut self, header: Header)
        ensures
            final(self)@ == old(self)@.push(header@),
    {
        self.entries.push(header);
        assert(self@ =~= old(self)@.push(header@));
    }

    /// The number of headers.
    pub fn len(&self) -> (count: usize)
        ensures
            count == self@.len(),
    {
        self.entries.len()
    }

    /// The header at a position.
    pub fn get(&self, index: usize) -> (header: &Header)
        requires
            index < self@.len(),
        ensures
            header@ == self@[index as int],
    {
        &self.entries[index]
    }

    /// Whether the list holds a header of this name with this value.
    pub fn holds(&self, wanted: &Header) -> (found: bool)
        ensures
            found == self@.contains(wanted@),
    {
        let mut index: usize = 0;
        while index < self.entries.len()
            invariant
                index <= self.entries.len(),
                forall|j: int| 0 <= j < index ==> self@[j] != wanted@,
            decreases self.entries.len() - index,
        {
            let entry = &self.entries[index];
            if entry.name == wanted.name && entry.value == wanted.value {
                assert(self@[index as int] == wanted@);
                return true;
            }
            index += 1;
        }
        false
    }

    /// Whether the list holds every header of `expected`.
    pub fn includes(&self, expected: &Headers) -> (all: bool)
        ensures
            all == includes(self@, expected@),
    {
        let mut index: usize = 0;
        while index < expected.entries.len()
            invariant
                index <= expected.entries.len(),
                forall|j: int| 0 <= j < index ==> self@.contains(#[trigger] expected@[j]),
            decreases expected.entries.len() - index,
        {
            if !self.holds(&expected.entries[index]) {
                assert(!self@.contains(expected@[index as int]));
                return false;
            }
            index += 1;
        }
        true
    }
}

impl Render for Headers {
    /// The headers between braces, with a comma and a space between each
    /// two.
    open spec fn text(value: Seq<(Seq<char>, Seq<char>)>) -> Seq<char> {
        "{"@ + joined(pair_texts(value)) + "}"@
    }

    fn render(&self) -> (text: String) {
        let ghost parts = pair_texts(self@);
        let mut text = "{".to_owned();
        let mut index: usize = 0;
        assert(parts.take(0) =~= Seq::<Seq<char>>::empty());
        assert(text@ =~= "{"@ + joined(parts.take(0)));
        while index < self.entries.len()
            invariant
                index <= self.entries.len(),
                parts == pair_texts(self@),
                parts.len() == self.entries.len(),
                text@ == "{"@ + joined(parts.take(index as int)),
            decreases self.entries.len() - index,
        {
            if index > 0 {
                text.append(", ");
            }
            let entry = &self.entries[index];
            text.append(entry.name.as_str());
            text.append(": ");
            text.append(entry.value.as_str());
            proof {
                lemma_joined_take(parts, index as int);
                assert(parts[index as int] == pair_text(self@[index as int]));
                if index == 0 {
                    assert(text@ =~= "{"@ + parts[0]);
                } else {
                    assert(text@ =~= "{"@ + (joined(parts.take(index as int)) + ", "@
                        + parts[index as int]));
                }
            }
            index += 1;
        }
        proof {
            assert(parts.take(index as int) =~= parts);
        }
        text.append("}");
        text
    }
}

impl Clone for Headers {
    fn clone(&self) -> (copy: Self)
        ensures
            copy@ == self@,
    {
        let mut entries: Vec<Header> = Vec::new();
        let mut index: usize = 0;
        while index < self.entries.len()
            invariant
                index <= self.entries.len(),
                entries@.len() == index,
                forall|j: int| 0 <= j < index ==> (#[trigger] entries@[j])@ == self.entries@[j]@,
            decreases self.entries.len() - index,
        {
            entries.push(self.entries[index].clone());
            index += 1;
        }
        let copy = Headers { entries };
        assert(copy@ =~= self@);
        copy
    }
}

} // verus!
