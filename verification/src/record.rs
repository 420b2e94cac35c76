//! The expense record: identity, name, tag, date text and amount.

use vstd::prelude::*;

use vstd::std_specs::cmp::PartialEqSpec;

use crate::errors::Error;
use crate::syntax::{i32_of_text, parse_i32};

verus! {

/// What an expense record holds, as plain mathematical values.
#[verifier::ext_equal]
pub struct ExpenseView {
    pub id: Seq<u8>,
    pub name: Seq<char>,
    pub tag: Seq<char>,
    pub date: Seq<char>,
    pub amount: int,
}

/// One expense record. The identifier is assigned at creation and is the
/// sole basis of equality: two records with the same id compare equal
/// whatever their other fields hold.
#[derive(Debug)]
pub struct Expense {
    id: [u8; 16],
    name: String,
    tag: String,
    date_str: String,
    amount: i32,
}

impl View for Expense {
    type V = ExpenseView;

    closed spec fn view(&self) -> ExpenseView {
        ExpenseView {
            id: self.id@,
            name: self.name@,
            tag: self.tag@,
            date: self.date_str@,
            amount: self.amount as int,
        }
    }
}

impl vstd::std_specs::cmp::PartialEqSpecImpl for Expense {
    open spec fn obeys_eq_spec() -> bool {
        true
    }

    open spec fn eq_spec(&self, other: &Expense) -> bool {
        self@.id == other@.id
    }
}

impl PartialEq for Expense {
    fn eq(&self, other: &Expense) -> (r: bool) {
        let mut i: usize = 0;
        while i < 16
            invariant
                0 <= i <= 16,
                forall|j: int| 0 <= j < i ==> self.id@[j] == other.id@[j],
            decreases 16 - i,
        {
            if self.id[i] != other.id[i] {
                return false;
            }
            i = i + 1;
        }
        proof {
            assert(self.id@ =~= other.id@);
        }
        true
    }
}

/// Relies on `uuid::Uuid::new_v4` and `Uuid::to_bytes_le`: a freshly drawn
/// random identifier as sixteen bytes. The draw is random, so nothing is
/// stated of the result.
#[verifier::external_body]
fn fresh_id() -> (r: [u8; 16]) {
    uuid::Uuid::new_v4().to_bytes_le()
}

impl Expense {
    /// Builds a record from explicit field values, as when rehydrating a
    /// stored row.
    pub fn new(id: [u8; 16], name: String, tag: String, date_str: &str, amount: i32) -> (e:
        Expense)
        ensures
            e@ == (ExpenseView {
                id: id@,
                name: name@,
                tag: tag@,
                date: date_str@,
                amount: amount as int,
            }),
    {
        Expense { id, name, tag, date_str: date_str.to_owned(), amount }
    }

    /// Begins a record: a fresh random id, blank text fields and a zero
    /// amount.
    pub fn empty() -> (e: Expense)
        ensures
            e@.name == Seq::<char>::empty(),
            e@.tag == Seq::<char>::empty(),
            e@.date == Seq::<char>::empty(),
            e@.amount == 0,
    {
        Expense {
            id: fresh_id(),
            name: String::new(),
            tag: String::new(),
            date_str: String::new(),
            amount: 0,
        }
    }

    /// The record's identifier.
    pub fn id(&self) -> (r: [u8; 16])
        ensures
            r@ == self@.id,
    {
        self.id
    }

    /// The record's name.
    pub fn name(&self) -> (r: String)
        ensures
            r@ == self@.name,
    {
        self.name.clone()
    }

    /// The record's tag.
    pub fn tag(&self) -> (r: String)
        ensures
            r@ == self@.tag,
    {
        self.tag.clone()
    }

    /// The record's date text.
    pub fn date(&self) -> (r: &str)
        ensures
            r@ == self@.date,
    {
        self.date_str.as_str()
    }

    /// The record's amount.
    pub fn amount(&self) -> (r: i32)
        ensures
            r == self@.amount,
    {
        self.amount
    }

    /// Replaces the identifier.
    pub fn set_id(&mut self, id: [u8; 16])
        ensures
            final(self)@ == (ExpenseView { id: id@, ..old(self)@ }),
    {
        self.id = id;
    }

    /// Stores `name` verbatim.
    pub fn set_name(&mut self, name: &str)
        ensures
            final(self)@ == (ExpenseView { name: name@, ..old(self)@ }),
    {
        self.name = name.to_owned();
    }

    /// Stores `tag` verbatim.
    pub fn set_tag(&mut self, tag: &str)
        ensures
            final(self)@ == (ExpenseView { tag: tag@, ..old(self)@ }),
    {
        self.tag = tag.to_owned();
    }

    /// Stores `date_str` verbatim.
    pub fn set_date(&mut self, date_str: &str)
        ensures
            final(self)@ == (ExpenseView { date: date_str@, ..old(self)@ }),
    {
        self.date_str = date_str.to_owned();
    }

    /// Reads `amount` as an integer and stores it; text that is not a
    /// well-formed integer leaves the previous amount in place and reports
    /// a parse error.
    pub fn set_amount(&mut self, amount: &str) -> (r: Result<(), Error>)
        ensures
            match i32_of_text(amount@) {
                Some(v) => r is Ok && final(self)@ == (ExpenseView { amount: v, ..old(self)@ }),
                None => r == Err::<(), Error>(Error::ParseError) && *final(self) == *old(self),
            },
    {
        match parse_i32(amount) {
            Ok(v) => {
                self.amount = v;
                Ok(())
            },
            Err(_) => Err(Error::ParseError),
        }
    }
}

/// Equality between expense records goes by the identifier alone: two
/// records are equal exactly when their ids are equal, independent of
/// name, tag, date and amount.
pub proof fn lemma_identity_equality(a: &Expense, b: &Expense)
    ensures
        Expense::obeys_eq_spec(),
        a.eq_spec(b) <==> a@.id == b@.id,
{
}

} // verus!
