//! The template grammar and its parser.
//!
//! ```text
//! template := producer stage*
//! stage    := '|' (filter | sort)
//! producer := 'GetAllInterfaces' | 'GetPrivateInterfaces' | 'GetInterface' string
//! filter   := 'FilterIPv4' | 'FilterIPv6' | 'FilterName' string | 'FilterFlags' string
//!           | 'FilterForwardable' | 'FilterGlobal' | 'FilterFirst' | 'FilterLast'
//! sort     := 'SortBy' string
//! string   := '"' text '"'
//! ```
//!
//! Keywords are matched exactly, case included. Blanks (spaces and tabs) may
//! stand before the producer, around each pipe, between a keyword and its
//! argument, and after the last stage. The text of an argument is everything
//! between the two quotes: any characters but a double quote, with no escape
//! processing. A template must use up the whole input; whatever cannot be
//! matched is a syntax error that carries its position and the text left.

use crate::language::{lemma_parse_sound, lemma_rejected_spells_nothing, spells};
use crate::text::{find, find_char, has_word_at, lemma_find_char, to_chars, word_at};
use vstd::prelude::*;

verus! {

/// The stage that generates the initial candidates.
#[derive(Clone, Debug, PartialEq, Eq)]
pub enum Producer {
    /// `GetAllInterfaces`
    GetAllInterfaces,
    /// `GetInterface "<name>"`
    GetInterface(String),
    /// `GetPrivateInterfaces`
    GetPrivateInterfaces,
}

/// A stage that removes candidates.
#[derive(Clone, Debug, PartialEq, Eq)]
pub enum Filter {
    /// `FilterIPv4`
    IPv4,
    /// `FilterIPv6`
    IPv6,
    /// `FilterName "<name>"`
    Name(String),
    /// `FilterFlags "<flag>"`
    Flags(String),
    /// `FilterForwardable`
    Forwardable,
    /// `FilterGlobal`
    Global,
    /// `FilterFirst`
    First,
    /// `FilterLast`
    Last,
}

/// A stage that reorders candidates.
#[derive(Clone, Debug, PartialEq, Eq)]
pub enum Sort {
    /// `SortBy "<attribute>"`
    By(String),
}

/// A filter or a sort.
#[derive(Clone, Debug, PartialEq, Eq)]
pub enum Stage {
    Filter(Filter),
    Sort(Sort),
}

/// A parsed template: one producer and the stages that follow it, in the
/// order in which the text gives them.
#[derive(Clone, Debug, PartialEq, Eq)]
pub struct Pipeline {
    pub producer: Producer,
    pub stages: Vec<Stage>,
}

/// What the parser was looking for where it stopped.
#[derive(Clone, Copy, Debug, PartialEq, Eq, Structural)]
pub enum Expected {
    /// One of the producer keywords.
    Producer,
    /// One of the filter or sort keywords.
    Stage,
    /// The double quote that opens an argument.
    OpeningQuote,
    /// The double quote that closes an argument.
    ClosingQuote,
    /// A pipe, or the end of the template.
    PipeOrEnd,
}

/// A template that does not follow the grammar.
#[derive(Clone, Debug, PartialEq, Eq)]
pub struct SyntaxError {
    /// The number of characters before the text that could not be matched.
    pub position: usize,
    /// The text that could not be matched, up to the end of the template.
    pub unmatched: String,
    /// What would have been accepted there.
    pub expected: Expected,
}

/// The mathematical value of a [`Producer`].
pub enum ProducerView {
    GetAllInterfaces,
    GetInterface(Seq<char>),
    GetPrivateInterfaces,
}

/// The mathematical value of a [`Filter`].
pub enum FilterView {
    IPv4,
    IPv6,
    Name(Seq<char>),
    Flags(Seq<char>),
    Forwardable,
    Global,
    First,
    Last,
}

/// The mathematical value of a [`Sort`].
pub enum SortView {
    By(Seq<char>),
}

/// The mathematical value of a [`Stage`].
pub enum StageView {
    Filter(FilterView),
    Sort(SortView),
}

/// The mathematical value of a [`Pipeline`].
pub struct PipelineView {
    pub producer: ProducerView,
    pub stages: Seq<StageView>,
}

/// The mathematical value of a [`SyntaxError`].
pub struct SyntaxErrorView {
    pub position: int,
    pub unmatched: Seq<char>,
    pub expected: Expected,
}

impl View for Producer {
    type V = ProducerView;

    open spec fn view(&self) -> ProducerView {
        match self {
            Producer::GetAllInterfaces => ProducerView::GetAllInterfaces,
            Producer::GetInterface(name) => ProducerView::GetInterface(name@),
            Producer::GetPrivateInterfaces => ProducerView::GetPrivateInterfaces,
        }
    }
}

impl View for Filter {
    type V = FilterView;

    open spec fn view(&self) -> FilterView {
        match self {
            Filter::IPv4 => FilterView::IPv4,
            Filter::IPv6 => FilterView::IPv6,
            Filter::Name(name) => FilterView::Name(name@),
            Filter::Flags(flag) => FilterView::Flags(flag@),
            Filter::Forwardable => FilterView::Forwardable,
            Filter::Global => FilterView::Global,
            Filter::First => FilterView::First,
            Filter::Last => FilterView::Last,
        }
    }
}

impl View for Sort {
    type V = SortView;

    open spec fn view(&self) -> SortView {
        match self {
            Sort::By(attribute) => SortView::By(attribute@),
        }
    }
}

impl View for Stage {
    type V = StageView;

    open spec fn view(&self) -> StageView {
        match self {
            Stage::Filter(f) => StageView::Filter(f@),
            Stage::Sort(s) => StageView::Sort(s@),
        }
    }
}

/// The views of a sequence of stages, in order.
pub open spec fn stage_views(stages: Seq<Stage>) -> Seq<StageView> {
    Seq::new(stages.len(), |i: int| stages[i]@)
}

impl View for Pipeline {
    type V = PipelineView;

    open spec fn view(&self) -> PipelineView {
        PipelineView { producer: self.producer@, stages: stage_views(self.stages@) }
    }
}

impl View for SyntaxError {
    type V = SyntaxErrorView;

    open spec fn view(&self) -> SyntaxErrorView {
        SyntaxErrorView {
            position: self.position as int,
            unmatched: self.unmatched@,
            expected: self.expected,
        }
    }
}

/// A space or a tab.
pub open spec fn is_blank(c: char) -> bool {
    c == ' ' || c == '\t'
}

/// The first position at or after `i` that holds no blank.
pub open spec fn skip_blanks(s: Seq<char>, i: int) -> int
    decreases s.len() - i,
{
    if 0 <= i < s.len() && is_blank(s[i]) {
        skip_blanks(s, i + 1)
    } else {
        i
    }
}

/// The syntax error raised at position `i` of `s`.
pub open spec fn error_at(s: Seq<char>, i: int, expected: Expected) -> SyntaxErrorView {
    SyntaxErrorView { position: i, unmatched: s.subrange(i, s.len() as int), expected }
}

/// A quoted argument after optional blanks at `i`: its text and the position
/// after its closing quote. A missing closing quote is reported at the
/// opening one.
pub open spec fn argument_at(s: Seq<char>, i: int) -> Result<(Seq<char>, int), SyntaxErrorView> {
    let open = skip_blanks(s, i);
    if 0 <= open < s.len() && s[open] == '"' {
        let close = find_char(s, '"', open + 1);
        if close < s.len() {
            Ok((s.subrange(open + 1, close), close + 1))
        } else {
            Err(error_at(s, open, Expected::ClosingQuote))
        }
    } else {
        Err(error_at(s, open, Expected::OpeningQuote))
    }
}

/// A producer at `i`, and the position after it.
pub open spec fn producer_at(s: Seq<char>, i: int) -> Result<(ProducerView, int), SyntaxErrorView> {
    if has_word_at(s, i, "GetAllInterfaces"@) {
        Ok((ProducerView::GetAllInterfaces, i + "GetAllInterfaces"@.len()))
    } else if has_word_at(s, i, "GetPrivateInterfaces"@) {
        Ok((ProducerView::GetPrivateInterfaces, i + "GetPrivateInterfaces"@.len()))
    } else if has_word_at(s, i, "GetInterface"@) {
        match argument_at(s, i + "GetInterface"@.len()) {
            Ok((name, end)) => Ok((ProducerView::GetInterface(name), end)),
            Err(e) => Err(e),
        }
    } else {
        Err(error_at(s, i, Expected::Producer))
    }
}

/// A filter at `i`, and the position after it.
pub open spec fn filter_at(s: Seq<char>, i: int) -> Result<(FilterView, int), SyntaxErrorView> {
    if has_word_at(s, i, "FilterIPv4"@) {
        Ok((FilterView::IPv4, i + "FilterIPv4"@.len()))
    } else if has_word_at(s, i, "FilterIPv6"@) {
        Ok((FilterView::IPv6, i + "FilterIPv6"@.len()))
    } else if has_word_at(s, i, "FilterName"@) {
        match argument_at(s, i + "FilterName"@.len()) {
            Ok((name, end)) => Ok((FilterView::Name(name), end)),
            Err(e) => Err(e),
        }
    } else if has_word_at(s, i, "FilterFlags"@) {
        match argument_at(s, i + "FilterFlags"@.len()) {
            Ok((flag, end)) => Ok((FilterView::Flags(flag), end)),
            Err(e) => Err(e),
        }
    } else if has_word_at(s, i, "FilterForwardable"@) {
        Ok((FilterView::Forwardable, i + "FilterForwardable"@.len()))
    } else if has_word_at(s, i, "FilterGlobal"@) {
        Ok((FilterView::Global, i + "FilterGlobal"@.len()))
    } else if has_word_at(s, i, "FilterFirst"@) {
        Ok((FilterView::First, i + "FilterFirst"@.len()))
    } else if has_word_at(s, i, "FilterLast"@) {
        Ok((FilterView::Last, i + "FilterLast"@.len()))
    } else {
        Err(error_at(s, i, Expected::Stage))
    }
}

/// A sort at `i`, and the position after it.
pub open spec fn sort_at(s: Seq<char>, i: int) -> Result<(SortView, int), SyntaxErrorView> {
    if has_word_at(s, i, "SortBy"@) {
        match argument_at(s, i + "SortBy"@.len()) {
            Ok((attribute, end)) => Ok((SortView::By(attribute), end)),
            Err(e) => Err(e),
        }
    } else {
        Err(error_at(s, i, Expected::Stage))
    }
}

/// A filter or a sort at `i`, and the position after it.
pub open spec fn stage_at(s: Seq<char>, i: int) -> Result<(StageView, int), SyntaxErrorView> {
    if has_word_at(s, i, "SortBy"@) {
        match sort_at(s, i) {
            Ok((sort, end)) => Ok((StageView::Sort(sort), end)),
            Err(e) => Err(e),
        }
    } else {
        match filter_at(s, i) {
            Ok((filter, end)) => Ok((StageView::Filter(filter), end)),
            Err(e) => Err(e),
        }
    }
}

/// The stages from `i` to the end of the text: each a pipe and a filter or
/// sort, with blanks around them as they come.
pub open spec fn stages_from(s: Seq<char>, i: int) -> Result<Seq<StageView>, SyntaxErrorView>
    decreases s.len() - i,
    via stages_from_decreases
{
    let pipe = skip_blanks(s, i);
    if pipe < 0 || pipe >= s.len() {
        Ok(Seq::empty())
    } else if s[pipe] == '|' {
        match stage_at(s, skip_blanks(s, pipe + 1)) {
            Ok((stage, end)) => match stages_from(s, end) {
                Ok(rest) => Ok(seq![stage] + rest),
                Err(e) => Err(e),
            },
            Err(e) => Err(e),
        }
    } else {
        Err(error_at(s, pipe, Expected::PipeOrEnd))
    }
}

/// Each stage is looked for behind a pipe, so further on in the text.
#[via_fn]
proof fn stages_from_decreases(s: Seq<char>, i: int) {
    let pipe = skip_blanks(s, i);
    lemma_skip_blanks(s, i);
    if 0 <= pipe < s.len() && s[pipe] == '|' {
        let start = skip_blanks(s, pipe + 1);
        lemma_skip_blanks(s, pipe + 1);
        lemma_stage_end(s, start);
    }
}

/// The pipeline that the whole of `s` spells, or the first syntax error.
pub open spec fn template_spec(s: Seq<char>) -> Result<PipelineView, SyntaxErrorView> {
    match producer_at(s, skip_blanks(s, 0)) {
        Ok((producer, end)) => match stages_from(s, end) {
            Ok(stages) => Ok(PipelineView { producer, stages }),
            Err(e) => Err(e),
        },
        Err(e) => Err(e),
    }
}

/// `skip_blanks` moves forward over blanks only and stays inside the text.
pub proof fn lemma_skip_blanks(s: Seq<char>, i: int)
    ensures
        i <= skip_blanks(s, i),
        0 <= i <= s.len() ==> skip_blanks(s, i) <= s.len(),
        forall|k: int| i <= k < skip_blanks(s, i) ==> 0 <= k < s.len() && is_blank(#[trigger] s[k]),
        0 <= skip_blanks(s, i) < s.len() ==> !is_blank(s[skip_blanks(s, i)]),
    decreases s.len() - i,
{
    if 0 <= i < s.len() && is_blank(s[i]) {
        lemma_skip_blanks(s, i + 1);
    }
}

/// An argument ends after the position it was looked for at, inside the text.
pub proof fn lemma_argument_end(s: Seq<char>, i: int)
    ensures
        argument_at(s, i) matches Ok((_, end)) ==> i < end && (0 <= i ==> end <= s.len()),
{
    lemma_skip_blanks(s, i);
    lemma_find_char(s, '"', skip_blanks(s, i) + 1);
}

/// A stage ends at or after the position it starts at, inside the text.
pub proof fn lemma_stage_end(s: Seq<char>, i: int)
    ensures
        stage_at(s, i) matches Ok((_, end)) ==> 0 <= i <= end <= s.len(),
{
    lemma_argument_end(s, i + "SortBy"@.len());
    lemma_argument_end(s, i + "FilterName"@.len());
    lemma_argument_end(s, i + "FilterFlags"@.len());
}

/// A producer ends at or after the position it starts at, inside the text.
pub proof fn lemma_producer_end(s: Seq<char>, i: int)
    ensures
        producer_at(s, i) matches Ok((_, end)) ==> 0 <= i <= end <= s.len(),
{
    lemma_argument_end(s, i + "GetInterface"@.len());
}

/// What a parsing step returned, as the grammar states it: the node's view
/// and the position after it, or the error's view.
pub open spec fn parsed<T: View>(r: Result<(T, usize), SyntaxError>) -> Result<
    (T::V, int),
    SyntaxErrorView,
> {
    match r {
        Ok((node, end)) => Ok((node@, end as int)),
        Err(e) => Err(e@),
    }
}

/// The views of the stages that were parsed, or the error's view.
pub open spec fn parsed_stages(r: Result<Vec<Stage>, SyntaxError>) -> Result<
    Seq<StageView>,
    SyntaxErrorView,
> {
    match r {
        Ok(stages) => Ok(stage_views(stages@)),
        Err(e) => Err(e@),
    }
}

/// The view of the pipeline that was parsed, or the error's view.
pub open spec fn parsed_pipeline(r: Result<Pipeline, SyntaxError>) -> Result<
    PipelineView,
    SyntaxErrorView,
> {
    match r {
        Ok(pipeline) => Ok(pipeline@),
        Err(e) => Err(e@),
    }
}

/// `stages` in front of the stages that `rest` holds; an error stays as it is.
pub open spec fn prepend(stages: Seq<StageView>, rest: Result<Seq<StageView>, SyntaxErrorView>)
    -> Result<Seq<StageView>, SyntaxErrorView> {
    match rest {
        Ok(more) => Ok(stages + more),
        Err(e) => Err(e),
    }
}

/// Whether the character is a blank.
fn blank(c: char) -> (r: bool)
    ensures
        r == is_blank(c),
{
    c == ' ' || c == '\t'
}

/// The first position at or after `i` that holds no blank.
fn skip(chars: &Vec<char>, i: usize) -> (r: usize)
    requires
        i <= chars@.len(),
    ensures
        r == skip_blanks(chars@, i as int),
        i <= r <= chars@.len(),
{
    let mut j = i;
    while j < chars.len() && blank(chars[j])
        invariant
            i <= j <= chars@.len(),
            skip_blanks(chars@, i as int) == skip_blanks(chars@, j as int),
        decreases chars@.len() - j,
    {
        j += 1;
    }
    j
}

/// The syntax error at `position`, with the text left from there.
fn error(text: &str, chars: &Vec<char>, position: usize, expected: Expected) -> (r: SyntaxError)
    requires
        chars@ == text@,
        position <= chars@.len(),
    ensures
        r@ == error_at(text@, position as int, expected),
{
    let unmatched = text.substring_char(position, chars.len()).to_owned();
    SyntaxError { position, unmatched, expected }
}

/// Reads a quoted argument after optional blanks at `i`.
fn argument(text: &str, chars: &Vec<char>, i: usize) -> (r: Result<(String, usize), SyntaxError>)
    requires
        chars@ == text@,
        i <= chars@.len(),
    ensures
        parsed(r) == argument_at(text@, i as int),
        r matches Ok((_, end)) ==> i < end <= chars@.len(),
{
    let open = skip(chars, i);
    if open < chars.len() && chars[open] == '"' {
        let close = find(chars, '"', open + 1);
        if close < chars.len() {
            let value = text.substring_char(open + 1, close).to_owned();
            Ok((value, close + 1))
        } else {
            Err(error(text, chars, open, Expected::ClosingQuote))
        }
    } else {
        Err(error(text, chars, open, Expected::OpeningQuote))
    }
}

/// Reads a producer at `i`.
fn producer(text: &str, chars: &Vec<char>, i: usize) -> (r: Result<(Producer, usize), SyntaxError>)
    requires
        chars@ == text@,
        i <= chars@.len(),
    ensures
        parsed(r) == producer_at(text@, i as int),
        r matches Ok((_, end)) ==> i <= end <= chars@.len(),
{
    if let Some(end) = word_at(chars, i, "GetAllInterfaces") {
        Ok((Producer::GetAllInterfaces, end))
    } else if let Some(end) = word_at(chars, i, "GetPrivateInterfaces") {
        Ok((Producer::GetPrivateInterfaces, end))
    } else if let Some(after) = word_at(chars, i, "GetInterface") {
        match argument(text, chars, after) {
            Ok((name, end)) => Ok((Producer::GetInterface(name), end)),
            Err(e) => Err(e),
        }
    } else {
        Err(error(text, chars, i, Expected::Producer))
    }
}

/// Reads a filter at `i`.
fn filter(text: &str, chars: &Vec<char>, i: usize) -> (r: Result<(Filter, usize), SyntaxError>)
    requires
        chars@ == text@,
        i <= chars@.len(),
    ensures
        parsed(r) == filter_at(text@, i as int),
        r matches Ok((_, end)) ==> i <= end <= chars@.len(),
{
    if let Some(end) = word_at(chars, i, "FilterIPv4") {
        Ok((Filter::IPv4, end))
    } else if let Some(end) = word_at(chars, i, "FilterIPv6") {
        Ok((Filter::IPv6, end))
    } else if let Some(after) = word_at(chars, i, "FilterName") {
        match argument(text, chars, after) {
            Ok((name, end)) => Ok((Filter::Name(name), end)),
            Err(e) => Err(e),
        }
    } else if let Some(after) = word_at(chars, i, "FilterFlags") {
        match argument(text, chars, after) {
            Ok((flag, end)) => Ok((Filter::Flags(flag), end)),
            Err(e) => Err(e),
        }
    } else if let Some(end) = word_at(chars, i, "FilterForwardable") {
        Ok((Filter::Forwardable, end))
    } else if let Some(end) = word_at(chars, i, "FilterGlobal") {
        Ok((Filter::Global, end))
    } else if let Some(end) = word_at(chars, i, "FilterFirst") {
        Ok((Filter::First, end))
    } else if let Some(end) = word_at(chars, i, "FilterLast") {
        Ok((Filter::Last, end))
    } else {
        Err(error(text, chars, i, Expected::Stage))
    }
}

/// Reads a sort at `i`.
fn sort(text: &str, chars: &Vec<char>, i: usize) -> (r: Result<(Sort, usize), SyntaxError>)
    requires
        chars@ == text@,
        i <= chars@.len(),
    ensures
        parsed(r) == sort_at(text@, i as int),
        r matches Ok((_, end)) ==> i <= end <= chars@.len(),
{
    if let Some(after) = word_at(chars, i, "SortBy") {
        match argument(text, chars, after) {
            Ok((attribute, end)) => Ok((Sort::By(attribute), end)),
            Err(e) => Err(e),
        }
    } else {
        Err(error(text, chars, i, Expected::Stage))
    }
}

/// Reads a filter or a sort at `i`.
fn stage(text: &str, chars: &Vec<char>, i: usize) -> (r: Result<(Stage, usize), SyntaxError>)
    requires
        chars@ == text@,
        i <= chars@.len(),
    ensures
        parsed(r) == stage_at(text@, i as int),
        r matches Ok((_, end)) ==> i <= end <= chars@.len(),
{
    if word_at(chars, i, "SortBy").is_some() {
        match sort(text, chars, i) {
            Ok((s, end)) => Ok((Stage::Sort(s), end)),
            Err(e) => Err(e),
        }
    } else {
        match filter(text, chars, i) {
            Ok((f, end)) => Ok((Stage::Filter(f), end)),
            Err(e) => Err(e),
        }
    }
}

/// Reads the stages from `start` to the end of the text.
fn stages(text: &str, chars: &Vec<char>, start: usize) -> (r: Result<Vec<Stage>, SyntaxError>)
    requires
        chars@ == text@,
        start <= chars@.len(),
    ensures
        parsed_stages(r) == stages_from(text@, start as int),
{
    let mut out: Vec<Stage> = Vec::new();
    let mut i = start;
    loop
        invariant
            chars@ == text@,
            i <= chars@.len(),
            stages_from(text@, start as int) == prepend(
                stage_views(out@),
                stages_from(text@, i as int),
            ),
        decreases chars@.len() - i,
    {
        let pipe = skip(chars, i);
        if pipe >= chars.len() {
            return Ok(out);
        }
        if chars[pipe] != '|' {
            return Err(error(text, chars, pipe, Expected::PipeOrEnd));
        }
        let at = skip(chars, pipe + 1);
        match stage(text, chars, at) {
            Ok((st, end)) => {
                let ghost before = stage_views(out@);
                out.push(st);
                proof {
                    assert(stage_views(out@) =~= before + seq![st@]);
                    match stages_from(text@, end as int) {
                        Ok(rest) => {
                            assert((before + seq![st@]) + rest =~= before + (seq![st@] + rest));
                        },
                        Err(_) => {},
                    }
                }
                i = end;
            },
            Err(e) => {
                return Err(e);
            },
        }
    }
}

/// The parser of interface templates.
pub struct IfTParser;

impl IfTParser {
    /// Parses a whole template: gives the pipeline that the text spells, or,
    /// where it spells none, the first place at which it stops being a
    /// template.
    pub fn template(text: &str) -> (r: Result<Pipeline, SyntaxError>)
        ensures
            parsed_pipeline(r) == template_spec(text@),
            r matches Ok(p) ==> spells(text@, p@),
            r is Err ==> forall|p: PipelineView| !spells(text@, p),
    {
        proof {
            lemma_parse_sound(text@);
            assert forall|p: PipelineView| template_spec(text@) is Err implies !spells(
                text@,
                p,
            ) by {
                lemma_rejected_spells_nothing(text@, p);
            }
        }
        let chars = to_chars(text);
        let start = skip(&chars, 0);
        match producer(text, &chars, start) {
            Ok((p, end)) => match stages(text, &chars, end) {
                Ok(list) => Ok(Pipeline { producer: p, stages: list }),
                Err(e) => Err(e),
            },
            Err(e) => Err(e),
        }
    }

    /// Parses a producer at the start of `text`; on success, also gives the
    /// number of characters it takes.
    pub fn producer(text: &str) -> (r: Result<(Producer, usize), SyntaxError>)
        ensures
            parsed(r) == producer_at(text@, 0),
    {
        let chars = to_chars(text);
        producer(text, &chars, 0)
    }

    /// Parses a filter at the start of `text`; on success, also gives the
    /// number of characters it takes.
    pub fn filter(text: &str) -> (r: Result<(Filter, usize), SyntaxError>)
        ensures
            parsed(r) == filter_at(text@, 0),
    {
        let chars = to_chars(text);
        filter(text, &chars, 0)
    }

    /// Parses a sort at the start of `text`; on success, also gives the
    /// number of characters it takes.
    pub fn sort(text: &str) -> (r: Result<(Sort, usize), SyntaxError>)
        ensures
            parsed(r) == sort_at(text@, 0),
    {
        let chars = to_chars(text);
        sort(text, &chars, 0)
    }
}

} // verus!
