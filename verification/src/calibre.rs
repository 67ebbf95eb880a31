//! The e-book converter: the two commands that turn a body into a book file,
//! the temporary paths they work on, and the order of the steps.

use crate::storage::{all_alphanumeric, random_alphanumeric, NAME_LENGTH};
use crate::text::chars_of;
use vstd::prelude::*;
use vstd::string::*;

verus! {

/// Why a conversion failed.
#[derive(Clone, Copy, Debug, PartialEq, Eq, Structural)]
pub enum ConvertError {
    /// A temporary file could not be written, read or removed.
    IO,
    /// The cover could not be generated.
    GenerateCover,
    /// The converter did not produce the book.
    ConvertFile,
}

/// A command: the program and its arguments.
#[derive(Debug)]
pub struct Command {
    pub program: String,
    pub arguments: Vec<String>,
}

/// What a conversion is asked for.
#[derive(Debug)]
pub struct Request {
    pub input_extension: String,
    pub body: String,
    pub cover_title: String,
    pub book_title: String,
    pub author: String,
}

/// `s` with a backslash before every single and double quotation mark.
pub open spec fn escaped(s: Seq<char>) -> Seq<char>
    decreases s.len(),
{
    if s.len() == 0 {
        Seq::empty()
    } else if s.last() == '\'' || s.last() == '"' {
        escaped(s.drop_last()).push('\\').push(s.last())
    } else {
        escaped(s.drop_last()).push(s.last())
    }
}

/// Escapes the quotation marks of a title, so that it can stand inside a
/// quoted string of the cover script.
pub fn escape_quotes(title: &str) -> (out: String)
    ensures
        out@ == escaped(title@),
{
    let chars = chars_of(title);
    let mut out: Vec<char> = Vec::new();
    let mut i: usize = 0;
    assert(chars@.take(0) == Seq::<char>::empty());
    while i < chars.len()
        invariant
            i <= chars.len(),
            out@ == escaped(chars@.take(i as int)),
        decreases chars.len() - i,
    {
        assert(chars@.take(i + 1).drop_last() == chars@.take(i as int));
        assert(chars@.take(i + 1).last() == chars@[i as int]);
        let c = chars[i];
        if c == '\'' || c == '"' {
            out.push('\\');
        }
        out.push(c);
        i = i + 1;
    }
    assert(chars@.take(chars.len() as int) == chars@);
    crate::text::string_of(&out)
}

/// The script that makes the cover.
pub open spec fn cover_script(cover_title: Seq<char>, author: Seq<char>) -> Seq<char> {
    "from calibre.ebooks.covers import *; open('/tmp/cover.jpg', 'wb').write(create_cover('"@
        + escaped(cover_title) + "', ['"@ + author + "']))"@
}

/// The path of the file that the body is written to.
pub open spec fn in_path_spec(name: Seq<char>, input_extension: Seq<char>) -> Seq<char> {
    "/tmp/"@ + name + "."@ + input_extension
}

/// The path of the file that the converter writes.
pub open spec fn out_path_spec(name: Seq<char>) -> Seq<char> {
    "/tmp/"@ + name + ".mobi"@
}

/// The arguments of the converter.
pub open spec fn convert_arguments(
    name: Seq<char>,
    input_extension: Seq<char>,
    book_title: Seq<char>,
    author: Seq<char>,
) -> Seq<Seq<char>> {
    seq![
        in_path_spec(name, input_extension),
        out_path_spec(name),
        "--filter-css"@,
        "\"font-family,color,background\""@,
        "--authors"@,
        author,
        "--title"@,
        book_title,
        "--cover"@,
        "/tmp/cover.jpg"@,
        "--output-profile"@,
        "kindle_oasis"@,
    ]
}

/// The characters of each argument.
pub open spec fn arguments_view(arguments: Vec<String>) -> Seq<Seq<char>> {
    arguments@.map_values(|argument: String| argument@)
}

/// All that a conversion does outside the library: the file to write the
/// body to, the two commands to run, the file to read the book from.
#[derive(Debug)]
pub struct Plan {
    pub in_path: String,
    pub out_path: String,
    pub cover: Command,
    pub convert: Command,
}

impl Plan {
    /// The plan is the one for `request` under the temporary name `name`.
    pub open spec fn is_for(&self, name: Seq<char>, request: Request) -> bool {
        &&& self.in_path@ == in_path_spec(name, request.input_extension@)
        &&& self.out_path@ == out_path_spec(name)
        &&& self.cover.program@ == "calibre-debug"@
        &&& arguments_view(self.cover.arguments) == seq![
            "-c"@,
            cover_script(request.cover_title@, request.author@),
        ]
        &&& self.convert.program@ == "ebook-convert"@
        &&& arguments_view(self.convert.arguments) == convert_arguments(
            name,
            request.input_extension@,
            request.book_title@,
            request.author@,
        )
    }
}

/// The plan of the conversion of `request` that works on files named `name`.
pub fn plan_with_name(name: &str, request: &Request) -> (plan: Plan)
    ensures
        plan.is_for(name@, *request),
{
    let mut in_path = String::from_str("/tmp/");
    in_path.append(name);
    in_path.append(".");
    in_path.append(request.input_extension.as_str());
    let mut out_path = String::from_str("/tmp/");
    out_path.append(name);
    out_path.append(".mobi");
    let mut script = String::from_str(
        "from calibre.ebooks.covers import *; open('/tmp/cover.jpg', 'wb').write(create_cover('",
    );
    let title = escape_quotes(request.cover_title.as_str());
    script.append(title.as_str());
    script.append("', ['");
    script.append(request.author.as_str());
    script.append("']))");
    let mut cover_arguments: Vec<String> = Vec::new();
    cover_arguments.push(String::from_str("-c"));
    cover_arguments.push(script);
    assert(arguments_view(cover_arguments) == seq![
        "-c"@,
        cover_script(request.cover_title@, request.author@),
    ]);
    let mut arguments: Vec<String> = Vec::new();
    arguments.push(in_path.clone());
    arguments.push(out_path.clone());
    arguments.push(String::from_str("--filter-css"));
    arguments.push(String::from_str("\"font-family,color,background\""));
    arguments.push(String::from_str("--authors"));
    arguments.push(request.author.clone());
    arguments.push(String::from_str("--title"));
    arguments.push(request.book_title.clone());
    arguments.push(String::from_str("--cover"));
    arguments.push(String::from_str("/tmp/cover.jpg"));
    arguments.push(String::from_str("--output-profile"));
    arguments.push(String::from_str("kindle_oasis"));
    assert(arguments_view(arguments) == convert_arguments(
        name@,
        request.input_extension@,
        request.book_title@,
        request.author@,
    ));
    Plan {
        in_path,
        out_path,
        cover: Command { program: String::from_str("calibre-debug"), arguments: cover_arguments },
        convert: Command { program: String::from_str("ebook-convert"), arguments },
    }
}

/// The plan of a conversion on files with a fresh random name, so that two
/// conversions at once do not meet on a path.
pub fn generate_mobi(request: &Request) -> (plan: Plan)
    ensures
        exists|name: Seq<char>|
            name.len() == NAME_LENGTH && all_alphanumeric(name) && #[trigger] plan.is_for(
                name,
                *request,
            ),
{
    let name = random_alphanumeric(NAME_LENGTH);
    let plan = plan_with_name(name.as_str(), request);
    assert(plan.is_for(name@, *request));
    plan
}

/// The text of the book that carries a verification code to an e-reader.
pub open spec fn validation_body(code: Seq<char>) -> Seq<char> {
    "Thank you for using cereal. To validate your kindle email address, please input the following code: "@
        + code
}

/// The conversion that makes the book which carries `code` to an e-reader.
pub fn generate_kindle_email_validation_mobi(code: &str) -> (request: Request)
    ensures
        request.input_extension@ == "txt"@,
        request.body@ == validation_body(code@),
        request.cover_title@ == "Cereal Kindle Email Validation Book"@,
        request.book_title@ == "Cereal Kindle Email Validation Book"@,
        request.author@ == "Cereal"@,
{
    let mut body = String::from_str(
        "Thank you for using cereal. To validate your kindle email address, please input the following code: ",
    );
    body.append(code);
    Request {
        input_extension: String::from_str("txt"),
        body,
        cover_title: String::from_str("Cereal Kindle Email Validation Book"),
        book_title: String::from_str("Cereal Kindle Email Validation Book"),
        author: String::from_str("Cereal"),
    }
}

/// The steps of a conversion.
#[derive(Clone, Copy, Debug, PartialEq, Eq, Structural)]
pub enum Step {
    /// Write the body to the input file.
    WriteInput,
    /// Run the cover command.
    GenerateCover,
    /// Run the converter.
    ConvertFile,
    /// Read the book from the output file.
    ReadOutput,
    /// Remove the two temporary files.
    RemoveFiles,
    /// Nothing more.
    Finished,
}

/// How a conversion ended, or stands.
#[derive(Clone, Copy, Debug, PartialEq, Eq, Structural)]
pub enum Outcome {
    /// Nothing has failed.
    Sound,
    /// A file could not be written, read or removed, or a command could not
    /// be run.
    Io,
    /// The cover command ran and failed.
    Cover,
    /// The converter ran and failed.
    Convert,
}

/// How a step ended.
#[derive(Clone, Copy, Debug, PartialEq, Eq, Structural)]
pub enum StepEnd {
    /// The step did its work.
    Done,
    /// The command ran and reported a failure.
    Failed,
    /// The file operation failed, or the command could not be run.
    Broken,
}

/// Where a conversion stands.
#[derive(Clone, Copy, Debug, PartialEq, Eq, Structural)]
pub struct Progress {
    pub step: Step,
    pub outcome: Outcome,
}

/// The failure that a step's end means for a conversion that was sound.
pub open spec fn failure_of(step: Step, end: StepEnd) -> Outcome {
    match end {
        StepEnd::Done => Outcome::Sound,
        StepEnd::Broken => Outcome::Io,
        StepEnd::Failed => match step {
            Step::GenerateCover => Outcome::Cover,
            Step::ConvertFile => Outcome::Convert,
            _ => Outcome::Io,
        },
    }
}

/// The step that follows `step` where nothing failed.
pub open spec fn following(step: Step) -> Step {
    match step {
        Step::WriteInput => Step::GenerateCover,
        Step::GenerateCover => Step::ConvertFile,
        Step::ConvertFile => Step::ReadOutput,
        Step::ReadOutput => Step::RemoveFiles,
        _ => Step::Finished,
    }
}

/// The state after the step of `progress` ended with `end`. The first
/// failure is kept as the outcome; once the input file was to be written, the
/// temporary files are removed whatever happened after.
pub open spec fn next_progress(progress: Progress, end: StepEnd) -> Progress {
    match progress.step {
        Step::Finished => progress,
        Step::RemoveFiles => Progress {
            step: Step::Finished,
            outcome: if progress.outcome == Outcome::Sound {
                failure_of(Step::RemoveFiles, end)
            } else {
                progress.outcome
            },
        },
        step => if end == StepEnd::Done {
            Progress { step: following(step), outcome: Outcome::Sound }
        } else {
            Progress { step: Step::RemoveFiles, outcome: failure_of(step, end) }
        },
    }
}

/// What a conversion that ended with `outcome` gives its caller.
pub open spec fn result_of(outcome: Outcome) -> Result<(), ConvertError> {
    match outcome {
        Outcome::Sound => Ok(()),
        Outcome::Io => Err(ConvertError::IO),
        Outcome::Cover => Err(ConvertError::GenerateCover),
        Outcome::Convert => Err(ConvertError::ConvertFile),
    }
}

/// The failure that the end of a step means.
pub fn failure(step: Step, end: StepEnd) -> (outcome: Outcome)
    ensures
        outcome == failure_of(step, end),
{
    match end {
        StepEnd::Done => Outcome::Sound,
        StepEnd::Broken => Outcome::Io,
        StepEnd::Failed => match step {
            Step::GenerateCover => Outcome::Cover,
            Step::ConvertFile => Outcome::Convert,
            _ => Outcome::Io,
        },
    }
}

impl Progress {
    /// What the conversion gives its caller: nothing before it is finished,
    /// then success or the first failure.
    pub fn result(&self) -> (ended: Option<Result<(), ConvertError>>)
        ensures
            ended == if self.step == Step::Finished {
                Some(result_of(self.outcome))
            } else {
                None
            },
    {
        match self.step {
            Step::Finished => Some(
                match self.outcome {
                    Outcome::Sound => Ok(()),
                    Outcome::Io => Err(ConvertError::IO),
                    Outcome::Cover => Err(ConvertError::GenerateCover),
                    Outcome::Convert => Err(ConvertError::ConvertFile),
                },
            ),
            _ => None,
        }
    }

    /// A conversion begins by writing its input.
    pub fn begin() -> (first: Progress)
        ensures
            first == (Progress { step: Step::WriteInput, outcome: Outcome::Sound }),
    {
        Progress { step: Step::WriteInput, outcome: Outcome::Sound }
    }

    /// Records how the current step ended and gives the next one.
    pub fn advance(&self, end: StepEnd) -> (next: Progress)
        ensures
            next == next_progress(*self, end),
    {
        match self.step {
            Step::Finished => *self,
            Step::RemoveFiles => {
                let outcome = match self.outcome {
                    Outcome::Sound => failure(Step::RemoveFiles, end),
                    other => other,
                };
                Progress { step: Step::Finished, outcome }
            },
            step => match end {
                StepEnd::Done => {
                    let next = match step {
                        Step::WriteInput => Step::GenerateCover,
                        Step::GenerateCover => Step::ConvertFile,
                        Step::ConvertFile => Step::ReadOutput,
                        _ => Step::RemoveFiles,
                    };
                    Progress { step: next, outcome: Outcome::Sound }
                },
                _ => Progress { step: Step::RemoveFiles, outcome: failure(step, end) },
            },
        }
    }
}

/// The steps of a conversion whose steps end with `ends`, one after another.
pub open spec fn steps_taken(ends: Seq<StepEnd>) -> Seq<Progress>
    decreases ends.len(),
{
    if ends.len() == 0 {
        seq![Progress { step: Step::WriteInput, outcome: Outcome::Sound }]
    } else {
        let before = steps_taken(ends.drop_last());
        before.push(next_progress(before.last(), ends.last()))
    }
}

/// No conversion leaves its files behind: where a conversion is finished,
/// the step before the end was the removal of the temporary files.
pub proof fn lemma_files_removed(ends: Seq<StepEnd>, k: int)
    requires
        1 <= k <= ends.len(),
        steps_taken(ends)[k].step == Step::Finished,
        steps_taken(ends)[k - 1].step != Step::Finished,
    ensures
        steps_taken(ends)[k - 1].step == Step::RemoveFiles,
    decreases ends.len(),
{
    lemma_steps_len(ends.drop_last());
    if k == ends.len() {
        assert(steps_taken(ends)[k - 1] == steps_taken(ends.drop_last()).last());
    } else {
        assert(steps_taken(ends)[k] == steps_taken(ends.drop_last())[k]);
        assert(steps_taken(ends)[k - 1] == steps_taken(ends.drop_last())[k - 1]);
        lemma_files_removed(ends.drop_last(), k);
    }
}

proof fn lemma_steps_len(ends: Seq<StepEnd>)
    ensures
        steps_taken(ends).len() == ends.len() + 1,
    decreases ends.len(),
{
    if ends.len() > 0 {
        lemma_steps_len(ends.drop_last());
    }
}

} // verus!
