//! Expansion of `source` statements in configuration files.
//!
//! A statement such as `source "binds.kdl"` names a file. Expanding a file puts the expanded text
//! of each named file in the place of its name, from the first statement to the last. Reading the
//! files and parsing the texts is left to the caller: an [`Expansion`] says what is to be read or
//! parsed next, is told the outcome, and goes on from there.
use vstd::prelude::*;
use vstd::string::*;
use vstd::utf8::*;

use crate::paths;
use crate::paths::SourcedPaths;
use crate::text;

verus! {

/// The pattern of a `source` statement: it takes up a line, and its group `source_file` is the
/// name between the quotes. It is matched line by line and without regard to case.
pub const SOURCE_FILE_RE: &'static str = "^\\s*source\\s+\"(?<source_file>.+\\.kdl)\"\\s*?$";

/// The group of [`SOURCE_FILE_RE`] that holds the file's name.
pub const SOURCE_FILE_GROUP: &'static str = "source_file";

/// Where a piece of text starts and ends, in bytes.
#[derive(Clone, Copy, Debug, PartialEq, Eq)]
pub struct Span {
    pub start: usize,
    pub end: usize,
}

/// Whether spans lie in a text, one behind the other, each from one character's edge to another.
pub open spec fn spans_fit(text: Seq<char>, spans: Seq<Span>) -> bool {
    &&& forall|i: int|
        #![trigger spans[i]]
        0 <= i < spans.len() ==> {
            &&& spans[i].start <= spans[i].end
            &&& text::is_offset(text, spans[i].start as int)
            &&& text::is_offset(text, spans[i].end as int)
        }
    &&& forall|i: int, j: int|
        #![trigger spans[i], spans[j]]
        0 <= i < j < spans.len() ==> spans[i].end <= spans[j].start
}

/// The regular expression that a pattern writes under two flags, or why it writes none.
pub uninterp spec fn regex_built(
    pattern: Seq<char>,
    multi_line: bool,
    case_insensitive: bool,
) -> Result<regex::Regex, regex::Error>;

/// Where a named group stands in each match of a regular expression in a text, from the first
/// match to the last; nothing for a match in which the group takes no part.
pub uninterp spec fn regex_group_spans(
    expression: regex::Regex,
    text: Seq<char>,
    group: Seq<char>,
) -> Seq<Option<Span>>;

/// Builds a regular expression with `regex::RegexBuilder`. Trusted: the outcome is a function of
/// the pattern and the two flags, and the pattern of a `source` statement can be built.
#[verifier::external_body]
fn build(pattern: &str, multi_line: bool, case_insensitive: bool) -> (res: Result<
    regex::Regex,
    regex::Error,
>)
    ensures
        res == regex_built(pattern@, multi_line, case_insensitive),
        pattern@ == SOURCE_FILE_RE@ ==> res is Ok,
{
    regex::RegexBuilder::new(pattern)
        .multi_line(multi_line)
        .case_insensitive(case_insensitive)
        .build()
}

/// Walks the matches of a regular expression with `Regex::captures_iter` and asks each for one
/// group with `Captures::name`. Trusted: the outcome is a function of the arguments; a span starts
/// no later than it ends, lies in the text and on the edges of characters; the matches do not
/// overlap and come in order, and a group lies within its match, so the spans do not overlap and
/// come in order either. In every match of a `source` statement the group of the file's name takes
/// part, as nothing in the pattern makes it optional.
#[verifier::external_body]
fn group_spans(expression: &regex::Regex, text: &str, group: &str) -> (res: Vec<Option<Span>>)
    ensures
        res@ == regex_group_spans(*expression, text@, group@),
        forall|i: int|
            #![trigger res@[i]]
            0 <= i < res@.len() && res@[i] is Some ==> {
                &&& res@[i]->0.start <= res@[i]->0.end
                &&& text::is_offset(text@, res@[i]->0.start as int)
                &&& text::is_offset(text@, res@[i]->0.end as int)
            },
        forall|i: int, j: int|
            #![trigger res@[i], res@[j]]
            0 <= i < j < res@.len() && res@[i] is Some && res@[j] is Some ==> res@[i]->0.end
                <= res@[j]->0.start,
        is_source_statement(*expression) && group@ == SOURCE_FILE_GROUP@ ==> forall|i: int|
            0 <= i < res@.len() ==> #[trigger] res@[i] is Some,
{
    let span_of = |m: regex::Match| Span { start: m.start(), end: m.end() };
    expression.captures_iter(text).map(|caps| caps.name(group).map(span_of)).collect()
}

/// Whether a regular expression matches `source` statements: it is what their pattern writes, line
/// by line and without regard to case.
pub open spec fn is_source_statement(expression: regex::Regex) -> bool {
    regex_built(SOURCE_FILE_RE@, true, true) == Ok::<regex::Regex, regex::Error>(expression)
}

/// Where the names of the sourced files stand in a text.
pub open spec fn source_spans_of(text: Seq<char>) -> Seq<Span> {
    regex_group_spans(
        regex_built(SOURCE_FILE_RE@, true, true).unwrap(),
        text,
        SOURCE_FILE_GROUP@,
    ).map_values(|span: Option<Span>| span.unwrap())
}

/// Finds the names of the sourced files in a text.
pub fn source_spans(text: &str) -> (res: Vec<Span>)
    ensures
        res@ == source_spans_of(text@),
        spans_fit(text@, res@),
{
    let mut res: Vec<Span> = Vec::new();
    match build(SOURCE_FILE_RE, true, true) {
        Ok(expression) => {
            let found = group_spans(&expression, text, SOURCE_FILE_GROUP);
            let mut i: usize = 0;
            while i < found.len()
                invariant
                    i <= found@.len(),
                    res@.len() == i,
                    forall|j: int| 0 <= j < found@.len() ==> #[trigger] found@[j] is Some,
                    forall|j: int| 0 <= j < i ==> #[trigger] res@[j] == found@[j]->0,
                decreases found@.len() - i,
            {
                match found[i] {
                    Some(span) => {
                        res.push(span);
                    },
                    None => {
                        assert(found@[i as int] is Some);
                    },
                }
                i += 1;
            }
            assert(res@ =~= source_spans_of(text@));
        },
        Err(_) => {},
    }
    res
}

/// Why a configuration could not be expanded. `I` is what reading a file can fail with, `P` what
/// parsing a text can fail with.
pub enum ConfigParseError<I, P> {
    /// A file could not be read.
    IoError(I),
    /// The first file sources the second, whose expansion is in progress already.
    CircularSourceError(String, String),
    /// The expanded text of a sourced file could not be parsed.
    ParseError(P),
    /// A file was read whose path has no parent to find the files that it sources in.
    NoParent(String),
}

/// A [`ConfigParseError`] with its paths as sequences of characters.
pub enum ErrorView<I, P> {
    IoError(I),
    CircularSourceError(Seq<char>, Seq<char>),
    ParseError(P),
    NoParent(Seq<char>),
}

impl<I, P> View for ConfigParseError<I, P> {
    type V = ErrorView<I, P>;

    open spec fn view(&self) -> ErrorView<I, P> {
        match *self {
            ConfigParseError::IoError(e) => ErrorView::IoError(e),
            ConfigParseError::CircularSourceError(file, source) => ErrorView::CircularSourceError(
                file@,
                source@,
            ),
            ConfigParseError::ParseError(e) => ErrorView::ParseError(e),
            ConfigParseError::NoParent(path) => ErrorView::NoParent(path@),
        }
    }
}

/// What an expansion waits for.
pub enum Step<I, P> {
    /// The file at this path is to be read.
    Read(String),
    /// This text, which the file called `name` sources, is to be parsed.
    Parse { name: String, text: String },
    /// Nothing: this is the outcome.
    Finished(Result<String, ConfigParseError<I, P>>),
}

/// A [`Step`] with its strings as sequences of characters.
pub enum StepView<I, P> {
    Read(Seq<char>),
    Parse { name: Seq<char>, text: Seq<char> },
    Finished(Result<Seq<char>, ErrorView<I, P>>),
}

impl<I, P> View for Step<I, P> {
    type V = StepView<I, P>;

    open spec fn view(&self) -> StepView<I, P> {
        match *self {
            Step::Read(path) => StepView::Read(path@),
            Step::Parse { name, text } => StepView::Parse { name: name@, text: text@ },
            Step::Finished(Ok(text)) => StepView::Finished(Ok(text@)),
            Step::Finished(Err(e)) => StepView::Finished(Err(e@)),
        }
    }
}

/// A file whose expansion is in progress.
pub struct SourceFile {
    path: String,
    /// The directory that the files it sources are found in.
    base: String,
    content: String,
    /// Where the names of the files it sources stand in `content`.
    spans: Vec<Span>,
    /// How many of the sourced files have been put in place.
    next: usize,
    /// Up to where `content` has been expanded.
    last_match_pos: usize,
    expanded: String,
    /// The sourced file that was started last.
    pending: String,
}

/// A [`SourceFile`] with its texts as sequences of characters.
pub struct FileView {
    pub path: Seq<char>,
    pub base: Seq<char>,
    pub content: Seq<char>,
    pub spans: Seq<Span>,
    pub next: int,
    pub last_match_pos: int,
    pub expanded: Seq<char>,
    pub pending: Seq<char>,
}

impl View for SourceFile {
    type V = FileView;

    closed spec fn view(&self) -> FileView {
        FileView {
            path: self.path@,
            base: self.base@,
            content: self.content@,
            spans: self.spans@,
            next: self.next as int,
            last_match_pos: self.last_match_pos as int,
            expanded: self.expanded@,
            pending: self.pending@,
        }
    }
}

impl FileView {
    /// A file none of whose sourced files has been put in place.
    pub open spec fn opened(
        path: Seq<char>,
        base: Seq<char>,
        content: Seq<char>,
        spans: Seq<Span>,
    ) -> FileView {
        FileView {
            path,
            base,
            content,
            spans,
            next: 0,
            last_match_pos: 0,
            expanded: Seq::empty(),
            pending: Seq::empty(),
        }
    }

    /// Whether the spans fit the content and what has been expanded ends where a span does.
    pub open spec fn wf(self) -> bool {
        &&& spans_fit(self.content, self.spans)
        &&& 0 <= self.next <= self.spans.len()
        &&& self.last_match_pos == if self.next == 0 {
            0
        } else {
            self.spans[self.next - 1].end as int
        }
    }

    /// The path of the file whose turn it is.
    pub open spec fn source_path(self) -> Seq<char> {
        let span = self.spans[self.next];
        paths::path_join(
            self.base,
            text::slice(self.content, span.start as int, span.end as int),
        )
    }

    /// The file with its text copied up to the name whose turn it is.
    pub open spec fn up_to_source(self) -> FileView {
        FileView {
            expanded: self.expanded + text::slice(
                self.content,
                self.last_match_pos,
                self.spans[self.next].start as int,
            ),
            pending: self.source_path(),
            ..self
        }
    }

    /// The file with the expanded text of the sourced file put in the place of its name.
    pub open spec fn past_source(self, sourced_content: Seq<char>) -> FileView {
        FileView {
            expanded: self.expanded + sourced_content,
            last_match_pos: self.spans[self.next].end as int,
            next: self.next + 1,
            ..self
        }
    }

    /// The expanded text of a file whose sourced files are all in place.
    pub open spec fn completed(self) -> Seq<char> {
        self.expanded + text::slice(
            self.content,
            self.last_match_pos,
            encode_utf8(self.content).len() as int,
        )
    }
}

/// Whether each file is well-formed and has a sourced file that is not in place.
pub open spec fn all_waiting(files: Seq<FileView>) -> bool {
    forall|i: int|
        0 <= i < files.len() ==> (#[trigger] files[i]).wf() && files[i].next < files[i].spans.len()
}

/// The expansion of a file and of the files that it sources.
pub struct Expansion<I, P> {
    /// The files whose expansion is in progress, each sourced by the one before it.
    files: Vec<SourceFile>,
    sourced_paths: SourcedPaths,
    step: Step<I, P>,
}

/// An [`Expansion`] with its texts as sequences of characters.
#[verifier::ext_equal]
pub struct ExpansionView<I, P> {
    pub files: Seq<FileView>,
    pub sourced_paths: Map<Seq<Seq<char>>, bool>,
    pub step: StepView<I, P>,
}

impl<I, P> View for Expansion<I, P> {
    type V = ExpansionView<I, P>;

    closed spec fn view(&self) -> ExpansionView<I, P> {
        ExpansionView {
            files: self.files@.map_values(|f: SourceFile| f@),
            sourced_paths: self.sourced_paths@,
            step: self.step@,
        }
    }
}

/// Whether the expansion of a path is recorded as being in progress.
pub open spec fn in_progress(sourced_paths: Map<Seq<Seq<char>>, bool>, path: Seq<char>) -> bool {
    sourced_paths.get(paths::path_components(path)) == Some(true)
}

impl<I, P> ExpansionView<I, P> {
    /// The start of the expansion of a file.
    pub open spec fn started(
        file_path: Seq<char>,
        sourced_paths: Map<Seq<Seq<char>>, bool>,
    ) -> Self {
        ExpansionView { files: Seq::empty(), sourced_paths, step: StepView::Read(file_path) }
    }

    /// Whether, as long as something is awaited, each file is in the middle of a sourced file,
    /// and a text is only awaited that some file sources.
    pub open spec fn wf(self) -> bool {
        &&& self.step !is Finished ==> all_waiting(self.files)
        &&& self.step is Parse ==> self.files.len() > 0
    }

    pub open spec fn finished(self, error: ErrorView<I, P>) -> Self {
        ExpansionView { step: StepView::Finished(Err(error)), ..self }
    }

    /// Goes on with the innermost file: starts the next file that it sources, refuses that file
    /// if its expansion is in progress, or, where none is left, hands the expanded text to the
    /// file outside.
    pub open spec fn advanced(self) -> Self {
        let file = self.files.last();
        let outer = self.files.drop_last();
        if file.next < file.spans.len() {
            let path = file.source_path();
            ExpansionView {
                files: outer.push(file.up_to_source()),
                sourced_paths: self.sourced_paths.insert(paths::path_components(path), true),
                step: if in_progress(self.sourced_paths, path) {
                    StepView::Finished(Err(ErrorView::CircularSourceError(file.path, path)))
                } else {
                    StepView::Read(path)
                },
            }
        } else if outer.len() == 0 {
            ExpansionView {
                files: outer,
                step: StepView::Finished(Ok(file.completed())),
                ..self
            }
        } else {
            ExpansionView {
                files: outer,
                sourced_paths: self.sourced_paths.insert(
                    paths::path_components(outer.last().pending),
                    false,
                ),
                step: StepView::Parse { name: outer.last().path, text: file.completed() },
            }
        }
    }

    /// What follows once the awaited file has been read and searched for `source` statements.
    pub open spec fn after_search(
        self,
        base: Option<Seq<char>>,
        content: Seq<char>,
        spans: Seq<Span>,
    ) -> Self {
        let path = self.step->Read_0;
        match base {
            None => self.finished(ErrorView::NoParent(path)),
            Some(base) => ExpansionView {
                files: self.files.push(FileView::opened(path, base, content, spans)),
                ..self
            }.advanced(),
        }
    }

    /// What follows once it is known how reading the awaited file went.
    pub open spec fn after_read(self, reply: Result<Seq<char>, I>) -> Self {
        match reply {
            Err(e) => self.finished(ErrorView::IoError(e)),
            Ok(content) => self.after_search(
                paths::path_parent(self.step->Read_0),
                content,
                source_spans_of(content),
            ),
        }
    }

    /// What follows once it is known how parsing the awaited text went.
    pub open spec fn after_parse(self, reply: Result<(), P>) -> Self {
        match reply {
            Err(e) => self.finished(ErrorView::ParseError(e)),
            Ok(_) => ExpansionView {
                files: self.files.drop_last().push(
                    self.files.last().past_source(self.step->Parse_text),
                ),
                ..self
            }.advanced(),
        }
    }
}

/// The characters of a text that was read, or why it could not be.
pub open spec fn reply_view<I>(reply: Result<String, I>) -> Result<Seq<char>, I> {
    match reply {
        Ok(content) => Ok(content@),
        Err(e) => Err(e),
    }
}

/// Starts the expansion of the file at `file_path`. The paths that `sourced_paths` records as in
/// progress may not be sourced again.
pub fn expand_source_file<I, P>(file_path: String, sourced_paths: SourcedPaths) -> (res: Expansion<
    I,
    P,
>)
    ensures
        res@ == ExpansionView::<I, P>::started(file_path@, sourced_paths@),
        res@.wf(),
{
    let res = Expansion { files: Vec::new(), sourced_paths, step: Step::Read(file_path) };
    assert(res@.files =~= Seq::empty());
    res
}

impl<I, P> Expansion<I, P> {
    /// What the expansion waits for.
    pub fn step(&self) -> (res: &Step<I, P>)
        ensures
            res@ == self@.step,
    {
        &self.step
    }

    /// The table of sourced paths as the expansion has left it, and what it waits for.
    pub fn into_parts(self) -> (res: (Step<I, P>, SourcedPaths))
        ensures
            res.0@ == self@.step,
            res.1@ == self@.sourced_paths,
    {
        (self.step, self.sourced_paths)
    }

    /// Goes on with the innermost file.
    fn advance(&mut self)
        requires
            old(self)@.files.len() > 0,
            old(self)@.files.last().wf(),
            all_waiting(old(self)@.files.drop_last()),
        ensures
            final(self)@ == old(self)@.advanced(),
            final(self)@.wf(),
    {
        let ghost before = self@;
        let mut file = self.files.pop().unwrap();
        assert(file@ == before.files.last());
        proof {
            text::start_is_offset(file.content@);
        }
        if file.next < file.spans.len() {
            let span = file.spans[file.next];
            let source = text::slice_text(file.content.as_str(), span.start, span.end);
            let path = paths::resolve(file.base.as_str(), source);
            file.expanded.append(
                text::slice_text(file.content.as_str(), file.last_match_pos, span.start),
            );
            file.pending = path.clone();
            let was = self.sourced_paths.insert(path.as_str(), true);
            self.step = if was == Some(true) {
                Step::Finished(
                    Err(ConfigParseError::CircularSourceError(file.path.clone(), path)),
                )
            } else {
                Step::Read(path)
            };
            self.files.push(file);
            assert(self@ =~= before.advanced());
        } else {
            file.expanded.append(
                text::rest_of_text(file.content.as_str(), file.last_match_pos),
            );
            let text = file.expanded;
            if self.files.len() == 0 {
                self.step = Step::Finished(Ok(text));
                assert(self@ =~= before.advanced());
            } else {
                let outer = &self.files[self.files.len() - 1];
                assert(outer@ == before.files.drop_last().last());
                let _ = self.sourced_paths.insert(outer.pending.as_str(), false);
                self.step = Step::Parse { name: outer.path.clone(), text };
                assert(self@ =~= before.advanced());
            }
        }
    }

    /// Tells the expansion what the awaited file holds, where its path's parent is and where the
    /// names of the files that it sources stand.
    pub fn file_searched(&mut self, base: Option<String>, content: String, spans: Vec<Span>)
        requires
            old(self)@.wf(),
            old(self)@.step is Read,
            spans_fit(content@, spans@),
        ensures
            final(self)@ == old(self)@.after_search(
                match base {
                    Some(base) => Some(base@),
                    None => None,
                },
                content@,
                spans@,
            ),
            final(self)@.wf(),
    {
        let ghost before = self@;
        let path = match &self.step {
            Step::Read(path) => path.clone(),
            _ => String::new(),
        };
        match base {
            None => {
                self.step = Step::Finished(Err(ConfigParseError::NoParent(path)));
            },
            Some(base) => {
                let file = SourceFile {
                    path,
                    base,
                    content,
                    spans,
                    next: 0,
                    last_match_pos: 0,
                    expanded: String::new(),
                    pending: String::new(),
                };
                let ghost opened = FileView::opened(path@, base@, content@, spans@);
                assert(file@ == opened);
                self.files.push(file);
                assert(self@ =~= ExpansionView { files: before.files.push(opened), ..before });
                assert(self@.files.drop_last() =~= before.files);
                self.advance();
            },
        }
    }

    /// Tells the expansion how reading the awaited file went.
    pub fn file_read(&mut self, reply: Result<String, I>)
        requires
            old(self)@.wf(),
            old(self)@.step is Read,
        ensures
            final(self)@ == old(self)@.after_read(reply_view(reply)),
            final(self)@.wf(),
    {
        match reply {
            Err(e) => {
                self.step = Step::Finished(Err(ConfigParseError::IoError(e)));
            },
            Ok(content) => {
                let base = match &self.step {
                    Step::Read(path) => paths::parent(path.as_str()),
                    _ => None,
                };
                let spans = source_spans(content.as_str());
                self.file_searched(base, content, spans);
            },
        }
    }

    /// Tells the expansion how parsing the awaited text went.
    pub fn text_parsed(&mut self, reply: Result<(), P>)
        requires
            old(self)@.wf(),
            old(self)@.step is Parse,
        ensures
            final(self)@ == old(self)@.after_parse(reply),
            final(self)@.wf(),
    {
        let ghost before = self@;
        match reply {
            Err(e) => {
                self.step = Step::Finished(Err(ConfigParseError::ParseError(e)));
            },
            Ok(_) => {
                let mut file = self.files.pop().unwrap();
                assert(file@ == before.files.last());
                assert(before.files.last() == before.files[before.files.len() - 1]);
                match &self.step {
                    Step::Parse { name: _, text } => {
                        file.expanded.append(text.as_str());
                    },
                    _ => {},
                }
                file.last_match_pos = file.spans[file.next].end;
                assert(file.next < file.spans.len());
                file.next += 1;
                assert(file@ == before.files.last().past_source(before.step->Parse_text));
                self.files.push(file);
                assert(self@.files =~= before.files.drop_last().push(
                    before.files.last().past_source(before.step->Parse_text),
                ));
                assert(self@.files.drop_last() =~= before.files.drop_last());
                self.advance();
            },
        }
    }
}

} // verus!
