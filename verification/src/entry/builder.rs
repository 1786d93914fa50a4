//! A step-by-step constructor for entries.

use crate::date::Date;
use crate::entry::Entry;
use crate::entry::EntryStatus;
use crate::entry::spec_opt_str;
use crate::errors::SilverfoxError;
use crate::errors::SilverfoxResult;
use crate::errors::ValidationError;
use crate::posting::Posting;
use vstd::prelude::*;

verus! {

/// Collects the parts of an entry before it is built; the date, status
/// and description must all be given.
#[derive(Default)]
pub struct EntryBuilder {
    /// The day the transaction happened, once given.
    pub date: Option<Date>,
    /// How sure the keeper is of it, once given.
    pub status: Option<EntryStatus>,
    /// What the transaction was, once given.
    pub description: Option<String>,
    /// Whom it was with.
    pub payee: Option<String>,
    /// A free-form note.
    pub comment: Option<String>,
    /// The postings, in order.
    pub postings: Vec<Posting>,
}

impl EntryBuilder {
    /// Starts a blank entry.
    pub fn new() -> (b: Self)
        ensures
            b.date is None,
            b.status is None,
            b.description is None,
            b.payee is None,
            b.comment is None,
            b.postings@.len() == 0,
    {
        EntryBuilder {
            date: None,
            status: None,
            description: None,
            payee: None,
            comment: None,
            postings: Vec::new(),
        }
    }

    /// Sets the date.
    pub fn date(self, date: Date) -> (b: Self)
        ensures
            b == (EntryBuilder { date: Some(date), ..self }),
    {
        EntryBuilder { date: Some(date), ..self }
    }

    /// Sets the status.
    pub fn status(self, status: EntryStatus) -> (b: Self)
        ensures
            b == (EntryBuilder { status: Some(status), ..self }),
    {
        EntryBuilder { status: Some(status), ..self }
    }

    /// Sets the description.
    pub fn description(self, description: String) -> (b: Self)
        ensures
            b.description == Some(description),
            b.date == self.date && b.status == self.status && b.payee == self.payee && b.comment
                == self.comment && b.postings == self.postings,
    {
        EntryBuilder { description: Some(description), ..self }
    }

    /// Sets or clears the payee.
    pub fn payee(self, payee: Option<String>) -> (b: Self)
        ensures
            b.payee == payee,
            b.date == self.date && b.status == self.status && b.description == self.description
                && b.comment == self.comment && b.postings == self.postings,
    {
        EntryBuilder { payee, ..self }
    }

    /// Sets or clears the comment.
    pub fn comment(self, comment: Option<String>) -> (b: Self)
        ensures
            b.comment == comment,
            b.date == self.date && b.status == self.status && b.description == self.description
                && b.payee == self.payee && b.postings == self.postings,
    {
        EntryBuilder { comment, ..self }
    }

    /// Appends one posting.
    pub fn posting(self, posting: Posting) -> (b: Self)
        ensures
            b.postings@ == self.postings@.push(posting),
            b.date == self.date && b.status == self.status && b.description == self.description
                && b.payee == self.payee && b.comment == self.comment,
    {
        let mut this = self;
        this.postings.push(posting);
        this
    }

    /// Replaces the postings wholesale.
    pub fn postings(self, postings: Vec<Posting>) -> (b: Self)
        ensures
            b.postings == postings,
            b.date == self.date && b.status == self.status && b.description == self.description
                && b.payee == self.payee && b.comment == self.comment,
    {
        EntryBuilder { postings, ..self }
    }

    /// Finishes the entry; a missing date, status or description is
    /// refused.
    pub fn build(self) -> (r: SilverfoxResult<Entry>)
        ensures
            r matches Ok(e) ==> ({
                &&& self.date == Some(e.date)
                &&& self.status == Some(e.status)
                &&& Some(e.description) == self.description
                &&& e.payee == self.payee
                &&& spec_opt_str(e.comment) == spec_opt_str(self.comment)
                &&& e.postings == self.postings
            }),
            r is Ok <==> (self.date is Some && self.status is Some && self.description is Some),
    {
        let date = match self.date {
            Some(d) => d,
            None => {
                return Err(
                    SilverfoxError::Validation(
                        ValidationError::new().set_message("an entry is missing a date"),
                    ),
                );
            },
        };
        let status = match self.status {
            Some(s) => s,
            None => {
                return Err(
                    SilverfoxError::Validation(
                        ValidationError::new().set_message(
                            "statuses are required on entries, and an entry was found without one",
                        ),
                    ),
                );
            },
        };
        let description = match self.description {
            Some(d) => d,
            None => {
                return Err(
                    SilverfoxError::Validation(
                        ValidationError::new().set_message(
                            "a description is required for entries",
                        ),
                    ),
                );
            },
        };
        Ok(
            Entry {
                date,
                status,
                description,
                payee: self.payee,
                comment: self.comment,
                postings: self.postings,
            },
        )
    }
}

} // verus!
