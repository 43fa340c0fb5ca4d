//! Quote records and the fixed, non-empty set of them that a server holds.

use vstd::prelude::*;
use crate::select::{daily_index, select};

verus! {

/// The character that separates text and attribution in a quotes source.
pub const DELIMITER: char = '|';

/// A record field is acceptable when it is non-empty and free of the delimiter.
pub open spec fn valid_field(field: Seq<char>) -> bool {
    field.len() > 0 && !field.contains(DELIMITER)
}

/// Mathematical content of a quote record.
pub struct QuoteView {
    pub text: Seq<char>,
    pub attribution: Seq<char>,
}

/// A record is valid when both of its fields are.
pub open spec fn valid_record(record: QuoteView) -> bool {
    valid_field(record.text) && valid_field(record.attribution)
}

/// Decides whether `field` may stand in a record.
pub fn is_valid_field(field: &str) -> (ok: bool)
    ensures
        ok == valid_field(field@),
{
    let mut seen: bool = false;
    for c in it: field.chars()
        invariant
            it.seq() == field@,
            seen == field@.take(it.index() as int).contains(DELIMITER),
    {
        proof {
            let k: int = it.index() as int;
            let before = field@.take(k);
            let after = field@.take(k + 1);
            if before.contains(DELIMITER) {
                let j: int = choose|j: int| 0 <= j < before.len() && before[j] == DELIMITER;
                assert(after[j] == DELIMITER);
            }
            if c == DELIMITER {
                assert(after[k] == DELIMITER);
            }
        }
        if c == DELIMITER {
            seen = true;
        }
    }
    assert(field@.take(field@.len() as int) == field@);
    !seen && !field.is_empty()
}

/// One quote: what was said, and who said it.
#[derive(Debug)]
pub struct Quote {
    text: String,
    attribution: String,
}

impl View for Quote {
    type V = QuoteView;

    closed spec fn view(&self) -> QuoteView {
        QuoteView { text: self.text@, attribution: self.attribution@ }
    }
}

impl Quote {
    /// Every record is valid, from its construction on.
    #[verifier::type_invariant]
    spec fn well_formed(self) -> bool {
        valid_record(self@)
    }

    /// Builds a record; refuses an empty field and a field that holds the delimiter.
    pub fn new(text: String, attribution: String) -> (record: Option<Quote>)
        ensures
            record is Some <==> valid_field(text@) && valid_field(attribution@),
            record matches Some(q) ==> q@ == (QuoteView { text: text@, attribution: attribution@ }),
    {
        if is_valid_field(text.as_str()) && is_valid_field(attribution.as_str()) {
            Some(Quote { text, attribution })
        } else {
            None
        }
    }

    /// The quoted text.
    pub fn text(&self) -> (text: &str)
        ensures
            text@ == self@.text,
            valid_field(text@),
    {
        proof {
            use_type_invariant(self);
        }
        self.text.as_str()
    }

    /// Who the quote is attributed to.
    pub fn attribution(&self) -> (attribution: &str)
        ensures
            attribution@ == self@.attribution,
            valid_field(attribution@),
    {
        proof {
            use_type_invariant(self);
        }
        self.attribution.as_str()
    }
}

/// The quotes a server holds: fixed in content and order, and never empty.
#[derive(Debug)]
pub struct QuoteSet {
    records: Vec<Quote>,
}

impl View for QuoteSet {
    type V = Seq<QuoteView>;

    closed spec fn view(&self) -> Seq<QuoteView> {
        Seq::new(self.records@.len(), |i: int| self.records@[i]@)
    }
}

impl QuoteSet {
    /// Every set holds at least one record.
    #[verifier::type_invariant]
    spec fn well_formed(self) -> bool {
        self.records@.len() > 0
    }

    /// Takes ownership of `records`, keeping their order; refuses an empty list.
    pub fn new(records: Vec<Quote>) -> (set: Option<QuoteSet>)
        ensures
            set is Some <==> records@.len() > 0,
            set matches Some(s) ==> s@ == Seq::new(records@.len(), |i: int| records@[i]@),
    {
        if records.len() == 0 {
            None
        } else {
            Some(QuoteSet { records })
        }
    }

    /// Number of quotes held, which is at least one.
    pub fn len(&self) -> (n: usize)
        ensures
            n == self@.len(),
            n > 0,
    {
        proof {
            use_type_invariant(self);
        }
        self.records.len()
    }

    /// The quote at `index`, if there is one.
    pub fn get(&self, index: usize) -> (found: Option<&Quote>)
        ensures
            found is Some <==> index < self@.len(),
            found matches Some(q) ==> q@ == self@[index as int],
    {
        if index < self.records.len() {
            Some(&self.records[index])
        } else {
            None
        }
    }

    /// The quote served at `now` seconds after the Unix epoch.
    pub fn quote_of_the_day(&self, now: u64) -> (quote: &Quote)
        ensures
            daily_index(now as nat, self@.len()) < self@.len(),
            quote@ == self@[daily_index(now as nat, self@.len()) as int],
    {
        let index: usize = select(now, self.len());
        &self.records[index]
    }
}

} // verus!
