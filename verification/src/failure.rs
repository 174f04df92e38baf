//! Errors, with what was tried when they occurred.
use vstd::prelude::*;
use vstd::string::{StrSliceExecFns, StringExecFns};

use crate::text::{decimal, push_decimal, texts};

verus! {

/// An error.
#[derive(Debug)]
pub struct Failure {
    /// What was tried, or what went wrong if there are no causes.
    pub message: String,
    /// Why it failed, from the outermost attempt to what went wrong.
    pub causes: Vec<String>,
}

/// An error as contracts see it: what was tried, from the outermost attempt, and last what went
/// wrong.
impl View for Failure {
    type V = Seq<Seq<char>>;

    open spec fn view(&self) -> Seq<Seq<char>> {
        seq![self.message@] + texts(self.causes@)
    }
}

/// An error of which nothing is known but what went wrong.
pub open spec fn failed(message: Seq<char>) -> Seq<Seq<char>> {
    seq![message]
}

/// An error that occurred when something was tried.
pub open spec fn within(context: Seq<char>, cause: Seq<Seq<char>>) -> Seq<Seq<char>> {
    seq![context] + cause
}

/// A result as contracts see it.
pub open spec fn traced<T>(result: Result<T, Failure>) -> Result<T, Seq<Seq<char>>> {
    match result {
        Ok(value) => Ok(value),
        Err(failure) => Err(failure@),
    }
}

/// A text whose lines, but for the first one, are indented.
pub open spec fn indented(text: Seq<char>, indent: Seq<char>) -> Seq<char>
    decreases text.len(),
{
    if text.len() == 0 {
        Seq::empty()
    } else {
        let before = indented(text.drop_last(), indent).push(text.last());
        if text.last() == '\n' {
            before + indent
        } else {
            before
        }
    }
}

/// The spaces that bring a text to the given width.
pub open spec fn padding(text: Seq<char>, width: nat) -> Seq<char> {
    Seq::new(
        if text.len() < width {
            (width - text.len()) as nat
        } else {
            0
        },
        |i: int| ' ',
    )
}

/// The lines that tell the first `n` causes. Causes are numbered if there are several.
pub open spec fn cause_lines(causes: Seq<Seq<char>>, n: int) -> Seq<char>
    decreases n,
{
    if n <= 0 {
        Seq::empty()
    } else {
        let number = decimal((n - 1) as nat);
        cause_lines(causes, n - 1) + (if causes.len() > 1 {
            "\n"@ + padding(number, 5) + number + ": "@ + indented(causes[n - 1], "       "@)
        } else {
            "\n    "@ + indented(causes[n - 1], "    "@)
        })
    }
}

/// The text that tells an error and its causes.
pub open spec fn report_of(chain: Seq<Seq<char>>) -> Seq<char> {
    if chain.len() <= 1 {
        chain[0]
    } else {
        chain[0] + "\n\nCaused by:"@ + cause_lines(chain.drop_first(), chain.len() - 1)
    }
}

fn push_indented(report: &mut String, text: &str, indent: &str)
    ensures
        final(report)@ == old(report)@ + indented(text@, indent@),
{
    let ghost start = report@;
    let count: usize = text.unicode_len();
    let mut i: usize = 0;
    proof {
        reveal_strlit("\n");
        assert(text@.take(0) =~= Seq::<char>::empty());
        assert(start + indented(text@.take(0), indent@) =~= start);
    }
    while i < count
        invariant
            i <= count == text@.len(),
            report@ == start + indented(text@.take(i as int), indent@),
        decreases count - i,
    {
        let ghost before = report@;
        report.append(text.substring_char(i, i + 1));
        proof {
            assert(text@.take(i + 1).drop_last() =~= text@.take(i as int));
            assert(report@ =~= before.push(text@[i as int]));
        }
        if text.get_char(i) == '\n' {
            report.append(indent);
        }
        i += 1;
        assert(report@ =~= start + indented(text@.take(i as int), indent@));
    }
    assert(text@.take(i as int) =~= text@);
}

fn push_number(report: &mut String, n: usize)
    ensures
        final(report)@ == old(report)@ + padding(decimal(n as nat), 5) + decimal(n as nat),
{
    let mut number = String::new();
    push_decimal(&mut number, n as u64);
    assert(number@ =~= decimal(n as nat));
    let ghost start = report@;
    let mut width: usize = number.as_str().unicode_len();
    let ghost spaces = |k: int| Seq::new(k as nat, |i: int| ' ');
    let ghost count = padding(number@, 5).len() as int;
    let ghost mut done: int = 0;
    assert(start + spaces(0) =~= start);
    while width < 5
        invariant
            0 <= done <= count,
            count == (if number@.len() < 5 {
                5 - number@.len()
            } else {
                0int
            }),
            width == number@.len() + done,
            spaces == (|k: int| Seq::new(k as nat, |i: int| ' ')),
            report@ == start + spaces(done),
        decreases 5 - width,
    {
        report.append(" ");
        width += 1;
        proof {
            reveal_strlit(" ");
            done = done + 1;
            assert(report@ =~= start + spaces(done));
        }
    }
    assert(spaces(done) =~= padding(number@, 5));
    report.append(number.as_str());
}

impl Failure {
    /// An error of which nothing is known but what went wrong.
    pub fn new(message: String) -> (failure: Failure)
        ensures
            failure@ == failed(message@),
    {
        let failure = Failure { message, causes: Vec::new() };
        assert(failure@ =~= failed(message@));
        failure
    }

    /// The error, with what was tried when it occurred.
    pub fn within(self, context: &str) -> (failure: Failure)
        ensures
            failure@ == within(context@, self@),
    {
        let ghost cause = self@;
        let mut causes = self.causes;
        causes.insert(0, self.message);
        let failure = Failure { message: context.to_owned(), causes };
        assert(failure@ =~= within(context@, cause));
        failure
    }

    /// The text that tells the error and its causes.
    pub fn report(&self) -> (report: String)
        ensures
            report@ == report_of(self@),
    {
        let mut report: String = self.message.clone();
        let ghost causes = self@.drop_first();
        assert(causes =~= texts(self.causes@));
        if self.causes.len() == 0 {
            return report;
        }
        report.append("\n\nCaused by:");
        let ghost start = report@;
        let mut i: usize = 0;
        assert(start + cause_lines(causes, 0) =~= start);
        while i < self.causes.len()
            invariant
                i <= self.causes@.len(),
                causes == texts(self.causes@),
                report@ == start + cause_lines(causes, i as int),
            decreases self.causes.len() - i,
        {
            let cause: &str = self.causes[i].as_str();
            assert(cause@ == causes[i as int]);
            if self.causes.len() > 1 {
                report.append("\n");
                push_number(&mut report, i);
                report.append(": ");
                push_indented(&mut report, cause, "       ");
            } else {
                report.append("\n    ");
                push_indented(&mut report, cause, "    ");
            }
            i += 1;
            assert(report@ =~= start + cause_lines(causes, i as int));
        }
        assert(report@ =~= report_of(self@));
        report
    }
}

/// Every new line of a text is indented, and nothing else is changed.
pub proof fn law_new_lines_are_indented(first: Seq<char>, second: Seq<char>, indent: Seq<char>)
    ensures
        indented(first + seq!['\n'] + second, indent) == indented(first, indent) + seq!['\n']
            + indent + indented(second, indent),
        !first.contains('\n') ==> indented(first, indent) == first,
    decreases first.len() + second.len(),
{
    let all = first + seq!['\n'] + second;
    if second.len() == 0 {
        assert(all =~= first.push('\n'));
        assert(all.drop_last() =~= first);
        assert(indented(all, indent) =~= indented(first, indent) + seq!['\n'] + indent
            + indented(second, indent));
    } else {
        assert(all.drop_last() =~= first + seq!['\n'] + second.drop_last());
        assert(all.last() == second.last());
        law_new_lines_are_indented(first, second.drop_last(), indent);
        assert(indented(all, indent) =~= indented(first, indent) + seq!['\n'] + indent
            + indented(second, indent));
    }
    if !first.contains('\n') && first.len() > 0 {
        let rest = first.drop_last();
        assert(first[first.len() - 1] != '\n');
        assert(!rest.contains('\n')) by {
            if rest.contains('\n') {
                let i = choose|i: int| 0 <= i < rest.len() && rest[i] == '\n';
                assert(first[i] == '\n');
            }
        }
        lemma_one_line(rest, indent);
        assert(indented(first, indent) =~= first);
    }
}

proof fn lemma_one_line(text: Seq<char>, indent: Seq<char>)
    requires
        !text.contains('\n'),
    ensures
        indented(text, indent) == text,
    decreases text.len(),
{
    if text.len() > 0 {
        let rest = text.drop_last();
        assert(text[text.len() - 1] != '\n');
        assert(!rest.contains('\n')) by {
            if rest.contains('\n') {
                let i = choose|i: int| 0 <= i < rest.len() && rest[i] == '\n';
                assert(text[i] == '\n');
            }
        }
        lemma_one_line(rest, indent);
        assert(indented(text, indent) =~= text);
    }
}

/// An error without a cause is told as it is. One with a single cause of one line is told with it
/// below, indented by four places.
pub proof fn law_report_of_one_cause(context: Seq<char>, cause: Seq<char>)
    requires
        !cause.contains('\n'),
    ensures
        report_of(failed(context)) == context,
        report_of(within(context, failed(cause))) == context + "\n\nCaused by:"@ + "\n    "@ + cause,
{
    let chain = within(context, failed(cause));
    let causes = chain.drop_first();
    assert(causes =~= seq![cause]);
    lemma_one_line(cause, "    "@);
    reveal_with_fuel(cause_lines, 2);
    assert(report_of(chain) =~= context + "\n\nCaused by:"@ + "\n    "@ + cause);
}

/// Several causes are told in their order, the outermost first, each on a line of its own with its
/// number. What is said of the causes before does not change when there is one more.
pub proof fn law_report_of_causes(chain: Seq<Seq<char>>, cause: Seq<char>)
    requires
        3 <= chain.len() <= 10,
        !cause.contains('\n'),
    ensures
        report_of(chain.push(cause)) == report_of(chain) + "\n    "@ + seq![
            (48 + chain.len() - 1) as char,
        ] + ": "@ + cause,
{
    let causes = chain.drop_first();
    let more = chain.push(cause).drop_first();
    assert(more =~= causes.push(cause));
    let n = causes.len() as int;
    lemma_lines_of_first_causes(causes, more, n);
    lemma_one_line(cause, "       "@);
    let number = decimal(n as nat);
    assert(number =~= seq![(48 + n) as char]);
    reveal_strlit("\n");
    reveal_strlit("\n    ");
    assert("\n"@ + padding(number, 5) =~= "\n    "@);
    assert(cause_lines(more, n + 1) == cause_lines(more, n) + ("\n"@ + padding(number, 5) + number
        + ": "@ + indented(cause, "       "@)));
    assert(report_of(chain.push(cause)) =~= report_of(chain) + "\n    "@ + seq![
        (48 + chain.len() - 1) as char,
    ] + ": "@ + cause);
}

proof fn lemma_lines_of_first_causes(causes: Seq<Seq<char>>, more: Seq<Seq<char>>, n: int)
    requires
        n <= causes.len(),
        2 <= causes.len() <= more.len(),
        forall|i: int| 0 <= i < causes.len() ==> causes[i] == #[trigger] more[i],
    ensures
        cause_lines(more, n) == cause_lines(causes, n),
    decreases n,
{
    if n > 0 {
        lemma_lines_of_first_causes(causes, more, n - 1);
        assert(causes[n - 1] == more[n - 1]);
    }
}

} // verus!
