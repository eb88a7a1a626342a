//! The report: a fixed preamble followed by one fragment for each reviewed file.

use vstd::prelude::*;

verus! {

/// What every report starts with.
pub const PREAMBLE: &'static str =
    "Hello, I am a [code review agent](https://github.com/flows-network/github-pr-review/) on [flows.network](https://flows.network/). Here are my reviews of changed source code files in this PR.\n\n------\n\n";

/// Stands in a section for which the model gave no answer.
pub const SENTINEL: &'static str = "N/A";

/// The title of the section that lists the issues found in a file.
pub const ISSUES_TITLE: &'static str = "#### Potential issues";

/// The title of the section that summarises the changes to a file.
pub const SUMMARY_TITLE: &'static str = "#### Summary of changes";

/// The review of one file: its name, the link to its content, and two sections.
#[derive(Debug, PartialEq, Eq)]
pub struct ReviewFragment {
    pub filename: String,
    pub link: String,
    pub issues: String,
    pub summary: String,
}

/// What a `ReviewFragment` holds.
pub struct FragmentView {
    pub filename: Seq<char>,
    pub link: Seq<char>,
    pub issues: Seq<char>,
    pub summary: Seq<char>,
}

impl View for ReviewFragment {
    type V = FragmentView;

    open spec fn view(&self) -> FragmentView {
        FragmentView {
            filename: self.filename@,
            link: self.link@,
            issues: self.issues@,
            summary: self.summary@,
        }
    }
}

/// The heading of a fragment: the file's name as a link to its content, and a
/// blank line.
pub open spec fn heading_text(filename: Seq<char>, link: Seq<char>) -> Seq<char> {
    "## ["@ + filename + "]("@ + link + ")\n\n"@
}

/// A section: its title, a blank line, its body, a blank line.
pub open spec fn section_text(title: Seq<char>, body: Seq<char>) -> Seq<char> {
    title + "\n\n"@ + body + "\n\n"@
}

/// A fragment as text: heading, issues, summary, in that order.
pub open spec fn fragment_text(fragment: FragmentView) -> Seq<char> {
    heading_text(fragment.filename, fragment.link) + section_text(
        ISSUES_TITLE@,
        fragment.issues,
    ) + section_text(SUMMARY_TITLE@, fragment.summary)
}

/// The fragments as text, one after the other in their order.
pub open spec fn fragments_text(fragments: Seq<FragmentView>) -> Seq<char>
    decreases fragments.len(),
{
    if fragments.len() == 0 {
        Seq::empty()
    } else {
        fragments_text(fragments.drop_last()) + fragment_text(fragments.last())
    }
}

/// The report that holds `fragments`: the preamble once, then the fragments.
pub open spec fn report_text(fragments: Seq<FragmentView>) -> Seq<char> {
    PREAMBLE@ + fragments_text(fragments)
}

/// A report under construction.
pub struct Report {
    text: String,
}

impl View for Report {
    type V = Seq<char>;

    closed spec fn view(&self) -> Seq<char> {
        self.text@
    }
}

impl Report {
    /// A report with no fragment: the preamble alone.
    pub fn new() -> (report: Report)
        ensures
            report@ == PREAMBLE@,
            report@ == report_text(Seq::empty()),
    {
        let mut text = String::new();
        text.append(PREAMBLE);
        assert(text@ =~= PREAMBLE@);
        assert(text@ =~= report_text(Seq::empty()));
        Report { text }
    }

    /// Adds `fragment` at the end of the report. What was there stays as it was.
    pub fn append(&mut self, fragment: &ReviewFragment)
        ensures
            final(self)@ == old(self)@ + fragment_text(fragment@),
    {
        self.text.append("## [");
        self.text.append(fragment.filename.as_str());
        self.text.append("](");
        self.text.append(fragment.link.as_str());
        self.text.append(")\n\n");
        self.text.append(ISSUES_TITLE);
        self.text.append("\n\n");
        self.text.append(fragment.issues.as_str());
        self.text.append("\n\n");
        self.text.append(SUMMARY_TITLE);
        self.text.append("\n\n");
        self.text.append(fragment.summary.as_str());
        self.text.append("\n\n");
        assert(self.text@ =~= old(self)@ + fragment_text(fragment@));
    }

    /// The report as it stands.
    pub fn as_str(&self) -> (text: &str)
        ensures
            text@ == self@,
    {
        self.text.as_str()
    }

    /// Gives up the report for its text.
    pub fn into_text(self) -> (text: String)
        ensures
            text@ == self@,
    {
        self.text
    }
}

/// The text of two runs of fragments, one after the other, is the text of the
/// first followed by the text of the second.
pub proof fn lemma_fragments_text_add(first: Seq<FragmentView>, second: Seq<FragmentView>)
    ensures
        fragments_text(first + second) == fragments_text(first) + fragments_text(second),
    decreases second.len(),
{
    if second.len() == 0 {
        assert(first + second =~= first);
        assert(fragments_text(first) + fragments_text(second) =~= fragments_text(first));
    } else {
        lemma_fragments_text_add(first, second.drop_last());
        assert((first + second).drop_last() =~= first + second.drop_last());
        assert((first + second).last() == second.last());
        assert(fragments_text(first + second) =~= fragments_text(first) + fragments_text(
            second,
        ));
    }
}

/// Appending is associative: a report to which `a` and then `b` were appended one
/// by one reads as the report with the pair `[a, b]` appended in one go, and in
/// general appending a run of fragments to a report of `fragments` gives the
/// report of both runs joined.
pub proof fn lemma_append_associative(
    fragments: Seq<FragmentView>,
    a: FragmentView,
    b: FragmentView,
    more: Seq<FragmentView>,
)
    ensures
        (report_text(fragments) + fragment_text(a)) + fragment_text(b) == report_text(fragments)
            + fragments_text(seq![a, b]),
        report_text(fragments) + fragments_text(more) == report_text(fragments + more),
        report_text(fragments.push(a)) == report_text(fragments) + fragment_text(a),
{
    lemma_fragments_text_add(fragments, more);
    assert(report_text(fragments) + fragments_text(more) =~= report_text(fragments + more));
    let pair = seq![a, b];
    assert(pair.drop_last() =~= seq![a]);
    assert(seq![a].drop_last() =~= Seq::<FragmentView>::empty());
    assert(fragments_text(Seq::<FragmentView>::empty()) =~= Seq::<char>::empty());
    assert(fragments_text(seq![a]) =~= fragment_text(a));
    assert(fragments_text(pair) =~= fragment_text(a) + fragment_text(b));
    assert((report_text(fragments) + fragment_text(a)) + fragment_text(b) =~= report_text(
        fragments,
    ) + fragments_text(pair));
    assert(fragments.push(a).drop_last() =~= fragments);
    assert(report_text(fragments.push(a)) =~= report_text(fragments) + fragment_text(a));
}

} // verus!
