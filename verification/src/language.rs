//! The language of templates as a relation between texts and pipelines,
//! and the proof that the parser decides it: a text parses to a pipeline
//! exactly when it spells that pipeline, and is rejected exactly when it
//! spells none.
//!
//! A text spells a pipeline when it holds, in this order and with nothing
//! else: blanks, the producer, for each stage blanks, a pipe, blanks and the
//! stage, and blanks. A producer or stage is its keyword and, where it takes
//! an argument, blanks and the argument between double quotes.

use crate::grammar::{
    argument_at, is_blank, lemma_producer_end, lemma_skip_blanks, lemma_stage_end, producer_at,
    skip_blanks, stage_at, stages_from, template_spec, FilterView, PipelineView, ProducerView,
    SortView, StageView, SyntaxErrorView,
};
use crate::render::{
    lemma_find_quote_to, lemma_producer_word, lemma_skip_blanks_to, lemma_stage_word,
    lemma_word_chars, producer_word, quote_free, quoted, stage_word,
};
use crate::text::{find_char, has_word_at, lemma_find_char};
use vstd::prelude::*;

verus! {

/// Whether `[i, j)` is a stretch of the text that holds blanks only.
pub open spec fn blanks(s: Seq<char>, i: int, j: int) -> bool {
    &&& 0 <= i <= j <= s.len()
    &&& forall|k: int| i <= k < j ==> is_blank(#[trigger] s[k])
}

/// Whether `[i, j)` holds blanks and then `text` between double quotes.
pub open spec fn spells_argument(s: Seq<char>, i: int, j: int, text: Seq<char>) -> bool {
    &&& quote_free(text)
    &&& blanks(s, i, j - text.len() - 2)
    &&& has_word_at(s, j - text.len() - 2, quoted(text))
}

/// The argument of a producer, if it takes one.
pub open spec fn producer_argument(p: ProducerView) -> Option<Seq<char>> {
    match p {
        ProducerView::GetInterface(name) => Some(name),
        _ => None,
    }
}

/// The argument of a stage, if it takes one.
pub open spec fn stage_argument(stage: StageView) -> Option<Seq<char>> {
    match stage {
        StageView::Filter(FilterView::Name(name)) => Some(name),
        StageView::Filter(FilterView::Flags(flag)) => Some(flag),
        StageView::Sort(SortView::By(attribute)) => Some(attribute),
        _ => None,
    }
}

/// Whether `[i, j)` holds the keyword and, where there is one, the argument.
pub open spec fn spells_call(
    s: Seq<char>,
    i: int,
    j: int,
    word: Seq<char>,
    argument: Option<Seq<char>>,
) -> bool {
    &&& has_word_at(s, i, word)
    &&& match argument {
        Some(text) => spells_argument(s, i + word.len(), j, text),
        None => j == i + word.len(),
    }
}

/// Whether `[i, j)` spells the producer.
pub open spec fn spells_producer(s: Seq<char>, i: int, j: int, p: ProducerView) -> bool {
    spells_call(s, i, j, producer_word(p), producer_argument(p))
}

/// Whether `[i, j)` spells the stage, without its pipe.
pub open spec fn spells_stage(s: Seq<char>, i: int, j: int, stage: StageView) -> bool {
    spells_call(s, i, j, stage_word(stage), stage_argument(stage))
}

/// Whether the text from `i` on holds blanks, a pipe at `pipe`, blanks and
/// the stage in `[start, end)`.
pub open spec fn spells_piped(
    s: Seq<char>,
    i: int,
    pipe: int,
    start: int,
    end: int,
    stage: StageView,
) -> bool {
    &&& blanks(s, i, pipe)
    &&& pipe < s.len()
    &&& s[pipe] == '|'
    &&& blanks(s, pipe + 1, start)
    &&& spells_stage(s, start, end, stage)
}

/// Whether the text from `i` to its end spells the stages, each after its
/// pipe, and then blanks only.
pub open spec fn spells_stages(s: Seq<char>, i: int, stages: Seq<StageView>) -> bool
    decreases stages.len(),
{
    if stages.len() == 0 {
        blanks(s, i, s.len() as int)
    } else {
        exists|pipe: int, start: int, end: int|
            #[trigger] spells_piped(s, i, pipe, start, end, stages.first()) && spells_stages(
                s,
                end,
                stages.drop_first(),
            )
    }
}

/// Whether the text spells the pipeline with its producer in `[start, end)`.
pub open spec fn spells_from(s: Seq<char>, start: int, end: int, p: PipelineView) -> bool {
    &&& blanks(s, 0, start)
    &&& spells_producer(s, start, end, p.producer)
    &&& spells_stages(s, end, p.stages)
}

/// Whether the text spells the pipeline.
pub open spec fn spells(s: Seq<char>, p: PipelineView) -> bool {
    exists|start: int, end: int| spells_from(s, start, end, p)
}

/// What is read as an argument spells it.
pub proof fn lemma_argument_sound(s: Seq<char>, i: int)
    requires
        0 <= i <= s.len(),
    ensures
        argument_at(s, i) matches Ok((text, j)) ==> spells_argument(s, i, j, text),
{
    let open = skip_blanks(s, i);
    lemma_skip_blanks(s, i);
    if open < s.len() && s[open] == '"' {
        let close = find_char(s, '"', open + 1);
        lemma_find_char(s, '"', open + 1);
        if close < s.len() {
            let text = s.subrange(open + 1, close);
            assert(s.subrange(open, close + 1) =~= quoted(text));
        }
    }
}

/// What spells an argument is read as it.
pub proof fn lemma_argument_complete(s: Seq<char>, i: int, j: int, text: Seq<char>)
    requires
        spells_argument(s, i, j, text),
    ensures
        argument_at(s, i) == Ok::<_, SyntaxErrorView>((text, j)),
{
    let n = text.len() as int;
    let open = j - n - 2;
    let w = quoted(text);
    lemma_word_chars(s, open, w, 0);
    lemma_word_chars(s, open, w, n + 1);
    lemma_skip_blanks_to(s, i, open);
    assert forall|k: int| open + 1 <= k < open + 1 + n implies #[trigger] s[k] != '"' by {
        lemma_word_chars(s, open, w, k - open);
    }
    lemma_find_quote_to(s, open + 1, open + 1 + n);
    assert(s.subrange(open + 1, open + 1 + n) =~= text) by {
        assert forall|k: int| 0 <= k < n implies s[open + 1 + k] == text[k] by {
            lemma_word_chars(s, open, w, k + 1);
        }
    }
}

/// What is read as a producer spells it.
pub proof fn lemma_producer_sound(s: Seq<char>, i: int)
    requires
        0 <= i <= s.len(),
    ensures
        producer_at(s, i) matches Ok((p, j)) ==> spells_producer(s, i, j, p),
{
    if has_word_at(s, i, "GetInterface"@) {
        lemma_argument_sound(s, i + "GetInterface"@.len());
    }
}

/// What spells a producer is read as it.
pub proof fn lemma_producer_complete(s: Seq<char>, i: int, j: int, p: ProducerView)
    requires
        spells_producer(s, i, j, p),
    ensures
        producer_at(s, i) == Ok::<_, SyntaxErrorView>((p, j)),
{
    lemma_producer_word(s, i, p);
    match p {
        ProducerView::GetInterface(name) => {
            lemma_argument_complete(s, i + "GetInterface"@.len(), j, name);
        },
        _ => {},
    }
}

/// What is read as a stage spells it.
pub proof fn lemma_stage_sound(s: Seq<char>, i: int)
    requires
        0 <= i <= s.len(),
    ensures
        stage_at(s, i) matches Ok((stage, j)) ==> spells_stage(s, i, j, stage),
{
    if has_word_at(s, i, "SortBy"@) {
        lemma_argument_sound(s, i + "SortBy"@.len());
    }
    if has_word_at(s, i, "FilterName"@) {
        lemma_argument_sound(s, i + "FilterName"@.len());
    }
    if has_word_at(s, i, "FilterFlags"@) {
        lemma_argument_sound(s, i + "FilterFlags"@.len());
    }
}

/// What spells a stage is read as it.
pub proof fn lemma_stage_complete(s: Seq<char>, i: int, j: int, stage: StageView)
    requires
        spells_stage(s, i, j, stage),
    ensures
        stage_at(s, i) == Ok::<_, SyntaxErrorView>((stage, j)),
{
    lemma_stage_word(s, i, stage);
    match stage {
        StageView::Filter(FilterView::Name(name)) => {
            lemma_argument_complete(s, i + "FilterName"@.len(), j, name);
        },
        StageView::Filter(FilterView::Flags(flag)) => {
            lemma_argument_complete(s, i + "FilterFlags"@.len(), j, flag);
        },
        StageView::Sort(SortView::By(attribute)) => {
            lemma_argument_complete(s, i + "SortBy"@.len(), j, attribute);
        },
        _ => {},
    }
}

/// What is read as a list of stages spells it.
pub proof fn lemma_stages_sound(s: Seq<char>, i: int)
    requires
        0 <= i <= s.len(),
    ensures
        stages_from(s, i) matches Ok(stages) ==> spells_stages(s, i, stages),
    decreases s.len() - i,
{
    let pipe = skip_blanks(s, i);
    lemma_skip_blanks(s, i);
    if pipe < s.len() && s[pipe] == '|' {
        let start = skip_blanks(s, pipe + 1);
        lemma_skip_blanks(s, pipe + 1);
        lemma_stage_end(s, start);
        lemma_stage_sound(s, start);
        match stage_at(s, start) {
            Ok((stage, end)) => {
                lemma_stages_sound(s, end);
                match stages_from(s, end) {
                    Ok(rest) => {
                        let stages = seq![stage] + rest;
                        assert(stages.first() == stage);
                        assert(stages.drop_first() =~= rest);
                        assert(spells_piped(s, i, pipe, start, end, stage));
                    },
                    Err(_) => {},
                }
            },
            Err(_) => {},
        }
    }
}

/// What spells a list of stages is read as it.
pub proof fn lemma_stages_complete(s: Seq<char>, i: int, stages: Seq<StageView>)
    requires
        spells_stages(s, i, stages),
    ensures
        stages_from(s, i) == Ok::<_, SyntaxErrorView>(stages),
    decreases stages.len(),
{
    if stages.len() == 0 {
        lemma_skip_blanks_to(s, i, s.len() as int);
        assert(stages =~= Seq::<StageView>::empty());
    } else {
        let (pipe, start, end) = choose|pipe: int, start: int, end: int|
            #[trigger] spells_piped(s, i, pipe, start, end, stages.first()) && spells_stages(
                s,
                end,
                stages.drop_first(),
            );
        lemma_skip_blanks_to(s, i, pipe);
        lemma_stage_word(s, start, stages.first());
        lemma_skip_blanks_to(s, pipe + 1, start);
        lemma_stage_complete(s, start, end, stages.first());
        lemma_stages_complete(s, end, stages.drop_first());
        assert(seq![stages.first()] + stages.drop_first() =~= stages);
    }
}

/// Soundness of the grammar: a text that parses spells the pipeline that it
/// parses to.
pub proof fn lemma_parse_sound(s: Seq<char>)
    ensures
        template_spec(s) matches Ok(p) ==> spells(s, p),
{
    let start = skip_blanks(s, 0);
    lemma_skip_blanks(s, 0);
    lemma_producer_sound(s, start);
    lemma_producer_end(s, start);
    match producer_at(s, start) {
        Ok((producer, end)) => {
            lemma_stages_sound(s, end);
            match stages_from(s, end) {
                Ok(stages) => {
                    assert(spells_from(s, start, end, PipelineView { producer, stages }));
                },
                Err(_) => {},
            }
        },
        Err(_) => {},
    }
}

/// Completeness of the grammar: a text that spells a pipeline parses, and
/// parses to that pipeline.
pub proof fn lemma_parse_complete(s: Seq<char>, p: PipelineView)
    requires
        spells(s, p),
    ensures
        template_spec(s) == Ok::<_, SyntaxErrorView>(p),
{
    let (start, end) = choose|start: int, end: int| spells_from(s, start, end, p);
    lemma_producer_word(s, start, p.producer);
    lemma_skip_blanks_to(s, 0, start);
    lemma_producer_complete(s, start, end, p.producer);
    lemma_stages_complete(s, end, p.stages);
}

/// A text that is rejected spells no pipeline.
pub proof fn lemma_rejected_spells_nothing(s: Seq<char>, p: PipelineView)
    requires
        template_spec(s) is Err,
    ensures
        !spells(s, p),
{
    if spells(s, p) {
        lemma_parse_complete(s, p);
    }
}

/// The grammar is unambiguous: a text spells at most one pipeline.
pub proof fn lemma_unambiguous(s: Seq<char>, p: PipelineView, q: PipelineView)
    requires
        spells(s, p),
        spells(s, q),
    ensures
        p == q,
{
    lemma_parse_complete(s, p);
    lemma_parse_complete(s, q);
}

} // verus!
