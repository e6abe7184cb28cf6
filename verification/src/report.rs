//! What is reported for a target once its outcome is known.

use vstd::prelude::*;
use vstd::std_specs::iter::IteratorSpec;
use vstd::string::*;
use crate::address::HostAddress;
use crate::target::{OutcomeView, ScanOutcome};

verus! {

/// Whether `c` has the Unicode property White_Space, as `char::is_whitespace`
/// tells.
pub uninterp spec fn unicode_white_space(c: char) -> bool;

/// Asks `char::is_whitespace` whether `c` is white space. The answer depends on
/// the character alone.
#[verifier::external_body]
fn is_white_space(c: char) -> (b: bool)
    ensures
        b == unicode_white_space(c),
{
    c.is_whitespace()
}

/// The length of `text` without its trailing white space.
pub open spec fn trimmed_len(text: Seq<char>) -> nat
    decreases text.len(),
{
    if text.len() == 0 {
        0
    } else if unicode_white_space(text.last()) {
        trimmed_len(text.drop_last())
    } else {
        text.len()
    }
}

/// `text` without its trailing white space.
pub open spec fn trim_end_of(text: Seq<char>) -> Seq<char> {
    text.take(trimmed_len(text) as int)
}

/// Removes the white space at the end of `text`.
pub fn trim_end(text: &str) -> (trimmed: String)
    ensures
        trimmed@ == trim_end_of(text@),
{
    let total: usize = text.unicode_len();
    let mut seen: usize = 0;
    let mut keep: usize = 0;
    let mut chars = text.chars();
    loop
        invariant
            seen <= total,
            total == text@.len(),
            keep <= seen,
            keep == trimmed_len(text@.take(seen as int)),
            chars.remaining() == text@.skip(seen as int),
        ensures
            seen == total,
        decreases total - seen,
    {
        match chars.next() {
            Some(c) => {
                assert(text@.take(seen + 1) =~= text@.take(seen as int).push(c));
                assert(text@.take(seen + 1).drop_last() =~= text@.take(seen as int));
                seen = seen + 1;
                if !is_white_space(c) {
                    keep = seen;
                }
            },
            None => {
                break ;
            },
        }
    }
    assert(text@.take(seen as int) =~= text@);
    text.substring_char(0, keep).to_owned()
}

/// What trimming leaves is a prefix of the text that does not end in white
/// space, and everything that it drops is white space.
pub proof fn lemma_trim_end_drops_white_space_only(text: Seq<char>)
    ensures
        trimmed_len(text) <= text.len(),
        trim_end_of(text).len() == trimmed_len(text),
        trim_end_of(text).is_prefix_of(text),
        forall|i: int| trimmed_len(text) <= i < text.len() ==> unicode_white_space(text[i]),
        trimmed_len(text) > 0 ==> !unicode_white_space(text[trimmed_len(text) - 1]),
    decreases text.len(),
{
    if text.len() > 0 && unicode_white_space(text.last()) {
        let front = text.drop_last();
        lemma_trim_end_drops_white_space_only(front);
        assert forall|i: int| trimmed_len(text) <= i < text.len() implies unicode_white_space(
            text[i],
        ) by {
            if i < front.len() {
                assert(text[i] == front[i]);
            }
        }
    }
}

/// One line of the result stream: a host with an open port, and the banner it
/// sent, if one was read.
#[derive(Clone, Debug, PartialEq, Eq)]
pub struct Report {
    pub host: HostAddress,
    /// The banner without its trailing white space; absent where banners were
    /// not read or none came.
    pub banner: Option<String>,
}

/// The mathematical content of a `Report`.
pub struct ReportView {
    pub host: HostAddress,
    pub banner: Option<Seq<char>>,
}

impl View for Report {
    type V = ReportView;

    open spec fn view(&self) -> ReportView {
        ReportView {
            host: self.host,
            banner: match self.banner {
                Some(text) => Some(text@),
                None => None,
            },
        }
    }
}

/// What is reported for `host` under `outcome`: nothing for a closed port, the
/// address alone for an open port without a banner, and the address with the
/// trimmed banner where a banner came. Whether a banner came is judged before
/// trimming, so a banner of white space alone is reported, as empty text.
pub open spec fn report_of(host: HostAddress, outcome: OutcomeView) -> Option<ReportView> {
    match outcome {
        OutcomeView::Closed => None,
        OutcomeView::Open => Some(ReportView { host, banner: None }),
        OutcomeView::OpenWithBanner(text) => if text.len() == 0 {
            Some(ReportView { host, banner: None })
        } else {
            Some(ReportView { host, banner: Some(trim_end_of(text)) })
        },
    }
}

/// Builds the report for `host` from the outcome of its scan.
pub fn report(host: HostAddress, outcome: &ScanOutcome) -> (r: Option<Report>)
    ensures
        match r {
            Some(line) => report_of(host, outcome@) == Some(line@),
            None => report_of(host, outcome@) is None,
        },
{
    match outcome {
        ScanOutcome::Closed => None,
        ScanOutcome::Open => Some(Report { host, banner: None }),
        ScanOutcome::OpenWithBanner(text) => {
            if text.as_str().is_empty() {
                Some(Report { host, banner: None })
            } else {
                Some(Report { host, banner: Some(trim_end(text.as_str())) })
            }
        },
    }
}

/// A host is reported exactly if its port was found open, and the report
/// carries a banner only where one was read.
pub proof fn lemma_report_iff_open(host: HostAddress, outcome: OutcomeView)
    ensures
        report_of(host, outcome) is Some <==> outcome.is_open(),
        report_of(host, outcome) is Some ==> report_of(host, outcome)->0.host == host,
        !(outcome is OpenWithBanner) && report_of(host, outcome) is Some ==> report_of(
            host,
            outcome,
        )->0.banner is None,
{
}

} // verus!
