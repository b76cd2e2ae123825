//! The decisions of proxy validation: whether a list can be checked at all,
//! and what each check's outcome does to the tally and the live list.
use vstd::prelude::*;
use crate::error::ProssimoError;
use crate::text::{contains, contains_seq, occurs_at, join_lines, join_with_newlines, lines_of, split_lines, trim, trim_ws};

verus! {

/// The message of the error for an empty proxy list.
pub open spec fn empty_list_message(source_file: Seq<char>) -> Seq<char> {
    "the proxy list: "@ + source_file + " can not be empty."@
}

/// The number of proxy lines in `contents` (the text of the list file named
/// `source_file`), or a `ConfigInvalid` error where there is none.
pub fn check_proxy_list(source_file: &str, contents: &str) -> (r: Result<usize, ProssimoError>)
    ensures
        r is Err <==> lines_of(contents@).len() == 0,
        r matches Ok(n) ==> n == lines_of(contents@).len(),
        r matches Err(e) ==> e matches ProssimoError::ConfigInvalid(m) && m@ == empty_list_message(
            source_file@,
        ),
{
    let lines = split_lines(contents);
    if lines.len() == 0 {
        let mut m = String::from_str("the proxy list: ");
        m.append(source_file);
        m.append(" can not be empty.");
        Err(ProssimoError::ConfigInvalid(m))
    } else {
        Ok(lines.len())
    }
}

/// Whether a check through a proxy on `line` proves it live: the address
/// that the validation service answers with, white space trimmed, occurs in
/// the line.
pub open spec fn answer_shows_live(line: Seq<char>, answer: Seq<char>) -> bool {
    contains_seq(line, trim_ws(answer))
}

/// An answer whose white-space-trimmed text occurs anywhere in the line,
/// here at position `i`, shows the line live.
pub proof fn lemma_occurrence_shows_live(line: Seq<char>, answer: Seq<char>, i: int)
    requires
        0 <= i,
        i + trim_ws(answer).len() <= line.len(),
        line.subrange(i, i + trim_ws(answer).len()) == trim_ws(answer),
    ensures
        answer_shows_live(line, answer),
{
    assert(occurs_at(line, trim_ws(answer), i));
}

/// A line shown live holds the white-space-trimmed answer somewhere: at the
/// position returned.
pub proof fn lemma_live_has_occurrence(line: Seq<char>, answer: Seq<char>) -> (i: int)
    requires
        answer_shows_live(line, answer),
    ensures
        0 <= i,
        i + trim_ws(answer).len() <= line.len(),
        line.subrange(i, i + trim_ws(answer).len()) == trim_ws(answer),
{
    choose|i: int| occurs_at(line, trim_ws(answer), i)
}

/// Whether the answer `answer` shows the proxy of `line` live (see
/// `answer_shows_live`).
pub fn is_live(line: &str, answer: &str) -> (r: bool)
    ensures
        r == answer_shows_live(line@, answer@),
{
    let ip = trim(answer);
    contains(line, ip.as_str())
}

/// What one check through a proxy came to.
pub enum CheckOutcome {
    /// The validation service answered, with this text.
    Answered(String),
    /// No answer came.
    NoAnswer,
}

/// The running result of validating a proxy list.
pub struct ValidationTally {
    /// The lines found live so far, in order.
    pub live: Vec<String>,
    /// The checks that got an answer.
    pub valid_count: u64,
    /// The checks that got none.
    pub invalid_count: u64,
}

impl ValidationTally {
    /// A tally before any check.
    pub fn new() -> (r: ValidationTally)
        ensures
            r.live@.len() == 0,
            r.valid_count == 0,
            r.invalid_count == 0,
    {
        ValidationTally { live: Vec::new(), valid_count: 0, invalid_count: 0 }
    }

    /// Records the outcome of checking the proxy of `line`. An answer counts
    /// as valid, and puts the line on the live list where it shows it live
    /// (see `answer_shows_live`); no answer counts as invalid. Returns whether
    /// the live list grew, which is when the live file is written again.
    pub fn record(&mut self, line: &str, outcome: &CheckOutcome) -> (grew: bool)
        requires
            old(self).valid_count < u64::MAX,
            old(self).invalid_count < u64::MAX,
        ensures
            match outcome {
                CheckOutcome::Answered(answer) => {
                    &&& final(self).valid_count == old(self).valid_count + 1
                    &&& final(self).invalid_count == old(self).invalid_count
                    &&& grew == answer_shows_live(line@, answer@)
                },
                CheckOutcome::NoAnswer => {
                    &&& final(self).valid_count == old(self).valid_count
                    &&& final(self).invalid_count == old(self).invalid_count + 1
                    &&& !grew
                },
            },
            grew ==> final(self).live.deep_view() == old(self).live.deep_view().push(line@),
            !grew ==> final(self).live.deep_view() == old(self).live.deep_view(),
            final(self).valid_count + final(self).invalid_count == old(self).valid_count
                + old(self).invalid_count + 1,
            old(self).live@.len() <= old(self).valid_count ==> final(self).live@.len()
                <= final(self).valid_count,
    {
        match outcome {
            CheckOutcome::Answered(answer) => {
                let grew = is_live(line, answer.as_str());
                if grew {
                    let ghost before = self.live.deep_view();
                    self.live.push(String::from_str(line));
                    assert(self.live.deep_view() =~= before.push(line@));
                }
                self.valid_count = self.valid_count + 1;
                grew
            },
            CheckOutcome::NoAnswer => {
                self.invalid_count = self.invalid_count + 1;
                false
            },
        }
    }

    /// The text of the live file: the live lines joined by newlines.
    pub fn live_file_contents(&self) -> (r: String)
        ensures
            r@ == join_lines(self.live.deep_view()),
    {
        join_with_newlines(&self.live)
    }
}

} // verus!
