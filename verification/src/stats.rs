//! The metrics of one sampling round: a value for each key, in the order in
//! which the keys first came.

use vstd::prelude::*;
use vstd::string::StringExecFns;
use crate::error::SerializationError;
use crate::json::{json_member, json_object, json_string, member, object, string_literal, texts};
use crate::number::JsonNumber;

verus! {

/// The value of one metric: a number or a text.
#[derive(Debug)]
pub enum MetricValue {
    /// A number.
    Number(JsonNumber),
    /// A text.
    Text(String),
}

/// A `MetricValue`, as plain text.
pub enum MetricView {
    Number(Seq<char>),
    Text(Seq<char>),
}

impl View for MetricValue {
    type V = MetricView;

    open spec fn view(&self) -> MetricView {
        match self {
            MetricValue::Number(number) => MetricView::Number(number@),
            MetricValue::Text(text) => MetricView::Text(text@),
        }
    }
}

/// The JSON text of a value: the number as it is written, or the string
/// literal of the text.
pub open spec fn value_json(value: MetricView) -> Seq<char> {
    match value {
        MetricView::Number(number) => number,
        MetricView::Text(text) => json_string(text),
    }
}

/// Whether `key` has a value in `entries`.
pub open spec fn has_key(entries: Seq<(Seq<char>, MetricView)>, key: Seq<char>) -> bool {
    exists|i: int| 0 <= i < entries.len() && (#[trigger] entries[i]).0 == key
}

/// A place at which `key` stands in `entries`, where it has one.
pub open spec fn position(entries: Seq<(Seq<char>, MetricView)>, key: Seq<char>) -> int {
    choose|i: int| 0 <= i < entries.len() && (#[trigger] entries[i]).0 == key
}

/// The value of `key` in `entries`, if it has one.
pub open spec fn value_of(entries: Seq<(Seq<char>, MetricView)>, key: Seq<char>) -> Option<
    MetricView,
> {
    if has_key(entries, key) {
        Some(entries[position(entries, key)].1)
    } else {
        None
    }
}

/// No key stands twice in `entries`.
pub open spec fn distinct_keys(entries: Seq<(Seq<char>, MetricView)>) -> bool {
    forall|i: int, j: int|
        0 <= i < j < entries.len() ==> (#[trigger] entries[i]).0 != (#[trigger] entries[j]).0
}

/// `entries` after `key` was given `value`: the value takes the place of the
/// one that the key had, or the key comes last.
pub open spec fn inserted(
    entries: Seq<(Seq<char>, MetricView)>,
    key: Seq<char>,
    value: MetricView,
) -> Seq<(Seq<char>, MetricView)> {
    if has_key(entries, key) {
        entries.update(position(entries, key), (key, value))
    } else {
        entries.push((key, value))
    }
}

/// The text of a number that may be missing.
pub open spec fn optional_number(number: Option<JsonNumber>) -> Option<Seq<char>> {
    match number {
        Some(inner) => Some(inner@),
        None => None,
    }
}

/// `entries` after a reading was noted for `key`: a reading that is a
/// number is the value of the key from then on, and one that is no number
/// changes nothing, so that the key gets no value from it.
pub open spec fn noted(
    entries: Seq<(Seq<char>, MetricView)>,
    key: Seq<char>,
    number: Option<Seq<char>>,
) -> Seq<(Seq<char>, MetricView)> {
    match number {
        Some(text) => inserted(entries, key, MetricView::Number(text)),
        None => entries,
    }
}

/// A key that was given a value has that value, the other keys have what
/// they had, and still no key stands twice.
pub proof fn lemma_inserted(
    entries: Seq<(Seq<char>, MetricView)>,
    key: Seq<char>,
    value: MetricView,
    other: Seq<char>,
)
    requires
        distinct_keys(entries),
    ensures
        distinct_keys(inserted(entries, key, value)),
        value_of(inserted(entries, key, value), key) == Some(value),
        other != key ==> value_of(inserted(entries, key, value), other) == value_of(entries, other),
{
    let after = inserted(entries, key, value);
    let at = if has_key(entries, key) {
        position(entries, key)
    } else {
        entries.len() as int
    };
    assert(after[at].0 == key);
    assert forall|i: int| 0 <= i < entries.len() implies (#[trigger] after[i]).0
        == entries[i].0 by {}
    assert forall|i: int, j: int| 0 <= i < j < after.len() implies (#[trigger] after[i]).0 != (
    #[trigger] after[j]).0 by {
        if j == entries.len() {
            assert(entries[i].0 != key);
        }
    }
    assert(position(after, key) == at) by {
        let p = position(after, key);
        assert(after[p].0 == key);
    }
    if other != key {
        if has_key(entries, other) {
            let o = position(entries, other);
            assert(after[o].0 == other);
            let q = position(after, other);
            assert(after[q].0 == other);
        } else if has_key(after, other) {
            let q = position(after, other);
            assert(entries[q].0 == other);
        }
    }
}

/// A key that has a value keeps having one when a key is given a value, and
/// the key that is given one has one.
pub proof fn lemma_keys_stay(
    entries: Seq<(Seq<char>, MetricView)>,
    key: Seq<char>,
    value: MetricView,
    other: Seq<char>,
)
    requires
        distinct_keys(entries),
        has_key(entries, other) || other == key,
    ensures
        distinct_keys(inserted(entries, key, value)),
        has_key(inserted(entries, key, value), other),
{
    lemma_inserted(entries, key, value, other);
}

/// The state object: one member for each entry, in order.
pub open spec fn state_json(entries: Seq<(Seq<char>, MetricView)>) -> Seq<char> {
    json_object(
        entries.map_values(
            |entry: (Seq<char>, MetricView)| json_member(entry.0, value_json(entry.1)),
        ),
    )
}

/// The metrics of one sampling round. Its functions keep each key once:
/// `distinct_keys` holds of every value that they made.
#[derive(Debug)]
pub struct Stats {
    entries: Vec<(String, MetricValue)>,
}

impl View for Stats {
    type V = Seq<(Seq<char>, MetricView)>;

    closed spec fn view(&self) -> Seq<(Seq<char>, MetricView)> {
        self.entries@.map_values(|entry: (String, MetricValue)| (entry.0@, entry.1@))
    }
}

impl Clone for MetricValue {
    fn clone(&self) -> (copy: Self)
        ensures
            copy@ == self@,
    {
        match self {
            MetricValue::Number(number) => MetricValue::Number(number.clone()),
            MetricValue::Text(text) => MetricValue::Text(text.clone()),
        }
    }
}

impl MetricValue {
    /// Writes the value as JSON.
    pub fn to_json(&self) -> (result: Result<String, SerializationError>)
        ensures
            result matches Ok(text) && text@ == value_json(self@),
    {
        match self {
            MetricValue::Number(number) => Ok(String::from_str(number.as_str())),
            MetricValue::Text(text) => string_literal(text.as_str()),
        }
    }
}

impl Stats {
    /// No metrics.
    pub fn new() -> (stats: Self)
        ensures
            stats@ == Seq::<(Seq<char>, MetricView)>::empty(),
            distinct_keys(stats@),
    {
        let stats = Stats { entries: Vec::new() };
        proof {
            assert(stats@ =~= Seq::<(Seq<char>, MetricView)>::empty());
        }
        stats
    }

    /// How many keys have a value.
    pub fn len(&self) -> (len: usize)
        ensures
            len == self@.len(),
    {
        self.entries.len()
    }

    fn find(&self, key: &str) -> (place: Option<usize>)
        requires
            distinct_keys(self@),
        ensures
            place is Some <==> has_key(self@, key@),
            place matches Some(i) ==> i < self@.len() && self@[i as int].0 == key@ && i
                == position(self@, key@),
    {
        let wanted = key.to_owned();
        let mut i: usize = 0;
        while i < self.entries.len()
            invariant
                i <= self.entries.len(),
                wanted@ == key@,
                distinct_keys(self@),
                forall|j: int| 0 <= j < i ==> (#[trigger] self@[j]).0 != key@,
            decreases self.entries.len() - i,
        {
            if self.entries[i].0 == wanted {
                proof {
                    assert(self@[i as int].0 == key@);
                    let p = position(self@, key@);
                    assert(self@[p].0 == key@);
                    assert(p == i);
                }
                return Some(i);
            }
            i += 1;
        }
        None
    }

    /// The value of `key`, if it has one.
    pub fn get(&self, key: &str) -> (value: Option<&MetricValue>)
        requires
            distinct_keys(self@),
        ensures
            match value {
                Some(v) => value_of(self@, key@) == Some(v@),
                None => value_of(self@, key@) is None,
            },
    {
        match self.find(key) {
            Some(i) => Some(&self.entries[i].1),
            None => None,
        }
    }

    /// Gives `key` the value `value`, in place of the one it had, if any.
    pub fn insert(&mut self, key: String, value: MetricValue)
        requires
            distinct_keys(old(self)@),
        ensures
            final(self)@ == inserted(old(self)@, key@, value@),
            distinct_keys(final(self)@),
    {
        match self.find(key.as_str()) {
            Some(i) => {
                self.entries.set(i, (key, value));
                proof {
                    assert(self@ =~= inserted(old(self)@, key@, value@));
                }
            },
            None => {
                self.entries.push((key, value));
                proof {
                    assert(self@ =~= inserted(old(self)@, key@, value@));
                }
            },
        }
    }

    /// Notes the reading `number` for `key`: gives the key that number, in
    /// place of the value it had, or leaves all as it is where the reading is
    /// no number.
    pub fn note(&mut self, key: String, number: &Option<JsonNumber>)
        requires
            distinct_keys(old(self)@),
        ensures
            final(self)@ == noted(old(self)@, key@, optional_number(*number)),
            distinct_keys(final(self)@),
    {
        match number {
            Some(inner) => self.insert(key, MetricValue::Number(inner.clone())),
            None => {},
        }
    }

    /// Writes the metrics as one JSON object.
    pub fn to_json(&self) -> (result: Result<String, SerializationError>)
        ensures
            result matches Ok(text) && text@ == state_json(self@),
    {
        let mut members: Vec<String> = Vec::new();
        let mut i: usize = 0;
        while i < self.entries.len()
            invariant
                i <= self.entries.len(),
                members.len() == i,
                forall|j: int|
                    0 <= j < i ==> (#[trigger] members@[j])@ == json_member(
                        self@[j].0,
                        value_json(self@[j].1),
                    ),
            decreases self.entries.len() - i,
        {
            let value = self.entries[i].1.to_json()?;
            members.push(member(self.entries[i].0.as_str(), value.as_str())?);
            i += 1;
        }
        proof {
            assert(texts(members@) =~= self@.map_values(
                |entry: (Seq<char>, MetricView)| json_member(entry.0, value_json(entry.1)),
            ));
        }
        Ok(object(&members))
    }
}

} // verus!
