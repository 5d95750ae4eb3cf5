//! What one attempt brought back: a status and the decoded body.

use vstd::prelude::*;
use vstd::string::*;
use crate::client::Pair;
use crate::status::{category_of, Category, Status};

verus! {

/// The value of the first field called `name`, if there is one.
pub open spec fn lookup(fields: Seq<Pair>, name: Seq<char>) -> Option<Seq<char>>
    decreases fields.len(),
{
    if fields.len() == 0 {
        None
    } else if fields[0].0 == name {
        Some(fields[0].1)
    } else {
        lookup(fields.drop_first(), name)
    }
}

/// A field is found exactly when some field has its name, and the value
/// found belongs to the earliest such field.
pub proof fn law_lookup_finds_first(fields: Seq<Pair>, name: Seq<char>)
    ensures
        lookup(fields, name) is None <==> forall|i: int|
            0 <= i < fields.len() ==> (#[trigger] fields[i]).0 != name,
        lookup(fields, name) matches Some(value) ==> exists|i: int|
            0 <= i < fields.len() && (#[trigger] fields[i]) == (name, value) && forall|j: int|
                0 <= j < i ==> (#[trigger] fields[j]).0 != name,
    decreases fields.len(),
{
    if fields.len() > 0 && fields[0].0 != name {
        let rest = fields.drop_first();
        law_lookup_finds_first(rest, name);
        assert forall|i: int| 0 <= i < rest.len() implies #[trigger] rest[i] == fields[i + 1] by {}
        if lookup(rest, name) is None {
            assert forall|i: int| 0 <= i < fields.len() implies (#[trigger] fields[i]).0
                != name by {
                if i > 0 {
                    assert(rest[i - 1].0 != name);
                }
            }
        } else {
            let value = lookup(rest, name)->0;
            let i = choose|i: int|
                0 <= i < rest.len() && (#[trigger] rest[i]) == (name, value) && forall|j: int|
                    0 <= j < i ==> (#[trigger] rest[j]).0 != name;
            assert forall|j: int| 0 <= j < i + 1 implies (#[trigger] fields[j]).0 != name by {
                if j > 0 {
                    assert(rest[j - 1].0 != name);
                }
            }
        }
    }
}

/// Finds the value of the first field called `name`.
pub fn find(fields: &Vec<(String, String)>, name: &str) -> (value: Option<String>)
    ensures
        value.deep_view() == lookup(fields.deep_view(), name@),
{
    let wanted = String::from_str(name);
    let ghost all = fields.deep_view();
    let mut i: usize = 0;
    assert(all.skip(0) =~= all);
    while i < fields.len()
        invariant
            i <= fields.len(),
            all == fields.deep_view(),
            wanted@ == name@,
            lookup(all, name@) == lookup(all.skip(i as int), name@),
        decreases fields.len() - i,
    {
        let ghost rest = all.skip(i as int);
        assert(rest.drop_first() =~= all.skip(i + 1));
        if fields[i].0 == wanted {
            return Some(fields[i].1.clone());
        }
        i += 1;
    }
    None
}

/// The answer to one request: its status and the fields of its body.
pub struct Outcome {
    status: Status,
    message: Option<String>,
    fields: Vec<(String, String)>,
}

/// An answer as plain values.
pub struct OutcomeView {
    pub status: u16,
    pub fields: Seq<Pair>,
}

impl OutcomeView {
    /// How the queue treats this answer.
    pub open spec fn category(self) -> Category {
        category_of(self.status)
    }

    /// The `message` field of the body, if the body has one.
    pub open spec fn message(self) -> Option<Seq<char>> {
        lookup(self.fields, "message"@)
    }
}

impl View for Outcome {
    type V = OutcomeView;

    closed spec fn view(&self) -> OutcomeView {
        OutcomeView { status: self.status@, fields: self.fields.deep_view() }
    }
}

impl Outcome {
    #[verifier::type_invariant]
    spec fn message_kept(self) -> bool {
        self.message.deep_view() == lookup(self.fields.deep_view(), "message"@)
    }

    /// The answer with this status and these body fields.
    pub fn new(status: Status, fields: Vec<(String, String)>) -> (outcome: Outcome)
        ensures
            outcome@ == (OutcomeView { status: status@, fields: fields.deep_view() }),
    {
        let message = find(&fields, "message");
        Outcome { status, message, fields }
    }

    /// The status of the answer.
    pub fn status(&self) -> (status: Status)
        ensures
            status@ == self@.status,
    {
        self.status
    }

    /// How the queue treats this answer.
    pub fn category(&self) -> (category: Category)
        ensures
            category == self@.category(),
    {
        self.status.category()
    }

    /// The `message` field of the body, if the body has one.
    pub fn message(&self) -> (message: &Option<String>)
        ensures
            message.deep_view() == self@.message(),
    {
        proof {
            use_type_invariant(self);
        }
        &self.message
    }

    /// All fields of the body.
    pub fn fields(&self) -> (fields: &Vec<(String, String)>)
        ensures
            fields.deep_view() == self@.fields,
    {
        &self.fields
    }
}

} // verus!
