//! The canonical text of a pipeline, and the proof that the grammar reads it
//! back: every pipeline whose arguments hold no double quote is the parse of
//! its own text.

use crate::grammar::{
    argument_at, is_blank, producer_at, skip_blanks, stage_at, stages_from, template_spec,
    FilterView, PipelineView, ProducerView, SortView, StageView, SyntaxErrorView,
};
use crate::text::{find_char, has_word_at};
use vstd::prelude::*;

verus! {

/// Whether the text holds no double quote, so that it can stand as an
/// argument.
pub open spec fn quote_free(text: Seq<char>) -> bool {
    forall|k: int| 0 <= k < text.len() ==> text[k] != '"'
}

/// The text between double quotes.
pub open spec fn quoted(text: Seq<char>) -> Seq<char> {
    seq!['"'] + text + seq!['"']
}

/// A keyword, a space and the quoted argument.
pub open spec fn with_argument(word: Seq<char>, text: Seq<char>) -> Seq<char> {
    word + (seq![' '] + quoted(text))
}

/// The text of a producer.
pub open spec fn render_producer(p: ProducerView) -> Seq<char> {
    match p {
        ProducerView::GetAllInterfaces => "GetAllInterfaces"@,
        ProducerView::GetPrivateInterfaces => "GetPrivateInterfaces"@,
        ProducerView::GetInterface(name) => with_argument("GetInterface"@, name),
    }
}

/// The text of a filter.
pub open spec fn render_filter(f: FilterView) -> Seq<char> {
    match f {
        FilterView::IPv4 => "FilterIPv4"@,
        FilterView::IPv6 => "FilterIPv6"@,
        FilterView::Name(name) => with_argument("FilterName"@, name),
        FilterView::Flags(flag) => with_argument("FilterFlags"@, flag),
        FilterView::Forwardable => "FilterForwardable"@,
        FilterView::Global => "FilterGlobal"@,
        FilterView::First => "FilterFirst"@,
        FilterView::Last => "FilterLast"@,
    }
}

/// The text of a sort.
pub open spec fn render_sort(s: SortView) -> Seq<char> {
    match s {
        SortView::By(attribute) => with_argument("SortBy"@, attribute),
    }
}

/// The text of a stage, without its pipe.
pub open spec fn render_stage(s: StageView) -> Seq<char> {
    match s {
        StageView::Filter(f) => render_filter(f),
        StageView::Sort(s) => render_sort(s),
    }
}

/// The text of the stages: before each, a pipe between two spaces.
pub open spec fn render_stages(stages: Seq<StageView>) -> Seq<char>
    decreases stages.len(),
{
    if stages.len() == 0 {
        Seq::empty()
    } else {
        seq![' ', '|', ' '] + (render_stage(stages.first()) + render_stages(stages.drop_first()))
    }
}

/// The text of a pipeline.
pub open spec fn render(p: PipelineView) -> Seq<char> {
    render_producer(p.producer) + render_stages(p.stages)
}

/// Whether the producer's argument, if it has one, holds no double quote.
pub open spec fn producer_quote_free(p: ProducerView) -> bool {
    match p {
        ProducerView::GetInterface(name) => quote_free(name),
        _ => true,
    }
}

/// Whether the stage's argument, if it has one, holds no double quote.
pub open spec fn stage_quote_free(s: StageView) -> bool {
    match s {
        StageView::Filter(FilterView::Name(name)) => quote_free(name),
        StageView::Filter(FilterView::Flags(flag)) => quote_free(flag),
        StageView::Sort(SortView::By(attribute)) => quote_free(attribute),
        _ => true,
    }
}

/// Whether no argument of the pipeline holds a double quote.
pub open spec fn pipeline_quote_free(p: PipelineView) -> bool {
    &&& producer_quote_free(p.producer)
    &&& forall|k: int| 0 <= k < p.stages.len() ==> stage_quote_free(#[trigger] p.stages[k])
}

/// A text that stands at a position stands there character by character.
pub proof fn lemma_word_chars(s: Seq<char>, i: int, w: Seq<char>, k: int)
    requires
        has_word_at(s, i, w),
        0 <= k < w.len(),
    ensures
        s[i + k] == w[k],
{
}

/// A text of two parts stands at a position exactly when the first part
/// stands there and the second right after it.
pub proof fn lemma_word_split(s: Seq<char>, i: int, a: Seq<char>, b: Seq<char>)
    requires
        has_word_at(s, i, a + b),
    ensures
        has_word_at(s, i, a),
        has_word_at(s, i + a.len(), b),
{
    let whole = s.subrange(i, i + (a + b).len());
    assert(s.subrange(i, i + a.len()) =~= whole.subrange(0, a.len() as int));
    assert((a + b).subrange(0, a.len() as int) =~= a);
    assert(s.subrange(i + a.len(), i + a.len() + b.len()) =~= whole.subrange(
        a.len() as int,
        (a + b).len() as int,
    ));
    assert((a + b).subrange(a.len() as int, (a + b).len() as int) =~= b);
}

/// Where one word stands, a word that differs from it in some character
/// does not stand.
pub proof fn lemma_words_differ(s: Seq<char>, i: int, here: Seq<char>, other: Seq<char>, k: int)
    requires
        has_word_at(s, i, here),
        0 <= k < here.len(),
        k < other.len(),
        here[k] != other[k],
    ensures
        !has_word_at(s, i, other),
{
    if has_word_at(s, i, other) {
        lemma_word_chars(s, i, here, k);
        lemma_word_chars(s, i, other, k);
    }
}

/// Blanks are skipped up to the first character that is none.
pub proof fn lemma_skip_blanks_to(s: Seq<char>, from: int, to: int)
    requires
        0 <= from <= to <= s.len(),
        forall|k: int| from <= k < to ==> is_blank(#[trigger] s[k]),
        to < s.len() ==> !is_blank(s[to]),
    ensures
        skip_blanks(s, from) == to,
    decreases to - from,
{
    if from < to {
        lemma_skip_blanks_to(s, from + 1, to);
    }
}

/// The closing quote is the first double quote that comes.
pub proof fn lemma_find_quote_to(s: Seq<char>, from: int, to: int)
    requires
        0 <= from <= to <= s.len(),
        forall|k: int| from <= k < to ==> #[trigger] s[k] != '"',
        to < s.len() ==> s[to] == '"',
    ensures
        find_char(s, '"', from) == to,
    decreases to - from,
{
    if from < to {
        lemma_find_quote_to(s, from + 1, to);
    }
}

/// A space and a quoted text are read as the argument that the text is.
pub proof fn lemma_argument_parse(s: Seq<char>, i: int, text: Seq<char>)
    requires
        has_word_at(s, i, seq![' '] + quoted(text)),
        quote_free(text),
    ensures
        argument_at(s, i) == Ok::<_, SyntaxErrorView>((text, i + text.len() + 3)),
{
    let w = seq![' '] + quoted(text);
    let n = text.len() as int;
    lemma_word_chars(s, i, w, 0);
    lemma_word_chars(s, i, w, 1);
    lemma_word_chars(s, i, w, n + 2);
    lemma_skip_blanks_to(s, i, i + 1);
    assert forall|k: int| i + 2 <= k < i + 2 + n implies #[trigger] s[k] != '"' by {
        lemma_word_chars(s, i, w, k - i);
    }
    lemma_find_quote_to(s, i + 2, i + 2 + n);
    assert(s.subrange(i + 2, i + 2 + n) =~= text) by {
        assert forall|k: int| 0 <= k < n implies s[i + 2 + k] == text[k] by {
            lemma_word_chars(s, i, w, k + 2);
        }
    }
}

/// A keyword with an argument is read as the keyword and then the argument.
pub proof fn lemma_with_argument_parse(s: Seq<char>, i: int, word: Seq<char>, text: Seq<char>)
    requires
        has_word_at(s, i, with_argument(word, text)),
        quote_free(text),
    ensures
        has_word_at(s, i, word),
        argument_at(s, i + word.len()) == Ok::<_, SyntaxErrorView>(
            (text, i + with_argument(word, text).len()),
        ),
{
    lemma_word_split(s, i, word, seq![' '] + quoted(text));
    lemma_argument_parse(s, i + word.len(), text);
}

/// The keyword that a producer's text begins with.
pub open spec fn producer_word(p: ProducerView) -> Seq<char> {
    match p {
        ProducerView::GetAllInterfaces => "GetAllInterfaces"@,
        ProducerView::GetPrivateInterfaces => "GetPrivateInterfaces"@,
        ProducerView::GetInterface(_) => "GetInterface"@,
    }
}

/// Where the keyword of a producer stands, no other producer's keyword
/// stands, and no blank.
pub proof fn lemma_producer_word(s: Seq<char>, i: int, p: ProducerView)
    requires
        has_word_at(s, i, producer_word(p)),
    ensures
        has_word_at(s, i, "GetAllInterfaces"@) <==> p is GetAllInterfaces,
        has_word_at(s, i, "GetPrivateInterfaces"@) <==> p is GetPrivateInterfaces,
        has_word_at(s, i, "GetInterface"@) <==> p is GetInterface,
        producer_word(p).len() > 0,
        i < s.len() && !is_blank(s[i]),
{
    reveal_strlit("GetAllInterfaces");
    reveal_strlit("GetPrivateInterfaces");
    reveal_strlit("GetInterface");
    let word = producer_word(p);
    lemma_word_chars(s, i, word, 0);
    if !(p is GetAllInterfaces) {
        lemma_words_differ(s, i, word, "GetAllInterfaces"@, 3);
    }
    if !(p is GetPrivateInterfaces) {
        lemma_words_differ(s, i, word, "GetPrivateInterfaces"@, 3);
    }
    if !(p is GetInterface) {
        lemma_words_differ(s, i, word, "GetInterface"@, 3);
    }
}

/// The text of a producer is read as the producer.
pub proof fn lemma_producer_parse(s: Seq<char>, i: int, p: ProducerView)
    requires
        has_word_at(s, i, render_producer(p)),
        producer_quote_free(p),
    ensures
        producer_at(s, i) == Ok::<_, SyntaxErrorView>((p, i + render_producer(p).len())),
        i < s.len() && !is_blank(s[i]),
{
    match p {
        ProducerView::GetInterface(name) => {
            lemma_with_argument_parse(s, i, "GetInterface"@, name);
        },
        _ => {},
    }
    lemma_producer_word(s, i, p);
}

/// The keyword that a stage's text begins with.
pub open spec fn stage_word(stage: StageView) -> Seq<char> {
    match stage {
        StageView::Filter(FilterView::IPv4) => "FilterIPv4"@,
        StageView::Filter(FilterView::IPv6) => "FilterIPv6"@,
        StageView::Filter(FilterView::Name(_)) => "FilterName"@,
        StageView::Filter(FilterView::Flags(_)) => "FilterFlags"@,
        StageView::Filter(FilterView::Forwardable) => "FilterForwardable"@,
        StageView::Filter(FilterView::Global) => "FilterGlobal"@,
        StageView::Filter(FilterView::First) => "FilterFirst"@,
        StageView::Filter(FilterView::Last) => "FilterLast"@,
        StageView::Sort(SortView::By(_)) => "SortBy"@,
    }
}

/// Where the keyword of a stage stands, no other stage's keyword stands,
/// and no blank.
pub proof fn lemma_stage_word(s: Seq<char>, i: int, stage: StageView)
    requires
        has_word_at(s, i, stage_word(stage)),
    ensures
        has_word_at(s, i, "SortBy"@) <==> stage is Sort,
        has_word_at(s, i, "FilterIPv4"@) <==> stage == StageView::Filter(FilterView::IPv4),
        has_word_at(s, i, "FilterIPv6"@) <==> stage == StageView::Filter(FilterView::IPv6),
        has_word_at(s, i, "FilterName"@) <==> stage matches StageView::Filter(FilterView::Name(_)),
        has_word_at(s, i, "FilterFlags"@) <==> stage matches StageView::Filter(
            FilterView::Flags(_),
        ),
        has_word_at(s, i, "FilterForwardable"@) <==> stage == StageView::Filter(
            FilterView::Forwardable,
        ),
        has_word_at(s, i, "FilterGlobal"@) <==> stage == StageView::Filter(FilterView::Global),
        has_word_at(s, i, "FilterFirst"@) <==> stage == StageView::Filter(FilterView::First),
        has_word_at(s, i, "FilterLast"@) <==> stage == StageView::Filter(FilterView::Last),
        stage_word(stage).len() > 0,
        i < s.len() && !is_blank(s[i]),
{
    reveal_strlit("SortBy");
    reveal_strlit("FilterIPv4");
    reveal_strlit("FilterIPv6");
    reveal_strlit("FilterName");
    reveal_strlit("FilterFlags");
    reveal_strlit("FilterForwardable");
    reveal_strlit("FilterGlobal");
    reveal_strlit("FilterFirst");
    reveal_strlit("FilterLast");
    lemma_word_chars(s, i, stage_word(stage), 0);
    match stage {
        StageView::Sort(_) => {
            lemma_words_differ(s, i, "SortBy"@, "FilterIPv4"@, 0);
            lemma_words_differ(s, i, "SortBy"@, "FilterIPv6"@, 0);
            lemma_words_differ(s, i, "SortBy"@, "FilterName"@, 0);
            lemma_words_differ(s, i, "SortBy"@, "FilterFlags"@, 0);
            lemma_words_differ(s, i, "SortBy"@, "FilterForwardable"@, 0);
            lemma_words_differ(s, i, "SortBy"@, "FilterGlobal"@, 0);
            lemma_words_differ(s, i, "SortBy"@, "FilterFirst"@, 0);
            lemma_words_differ(s, i, "SortBy"@, "FilterLast"@, 0);
        },
        StageView::Filter(FilterView::IPv4) => {
            lemma_words_differ(s, i, "FilterIPv4"@, "SortBy"@, 0);
            lemma_words_differ(s, i, "FilterIPv4"@, "FilterIPv6"@, 9);
            lemma_words_differ(s, i, "FilterIPv4"@, "FilterName"@, 6);
            lemma_words_differ(s, i, "FilterIPv4"@, "FilterFlags"@, 6);
            lemma_words_differ(s, i, "FilterIPv4"@, "FilterForwardable"@, 6);
            lemma_words_differ(s, i, "FilterIPv4"@, "FilterGlobal"@, 6);
            lemma_words_differ(s, i, "FilterIPv4"@, "FilterFirst"@, 6);
            lemma_words_differ(s, i, "FilterIPv4"@, "FilterLast"@, 6);
        },
        StageView::Filter(FilterView::IPv6) => {
            lemma_words_differ(s, i, "FilterIPv6"@, "SortBy"@, 0);
            lemma_words_differ(s, i, "FilterIPv6"@, "FilterIPv4"@, 9);
            lemma_words_differ(s, i, "FilterIPv6"@, "FilterName"@, 6);
            lemma_words_differ(s, i, "FilterIPv6"@, "FilterFlags"@, 6);
            lemma_words_differ(s, i, "FilterIPv6"@, "FilterForwardable"@, 6);
            lemma_words_differ(s, i, "FilterIPv6"@, "FilterGlobal"@, 6);
            lemma_words_differ(s, i, "FilterIPv6"@, "FilterFirst"@, 6);
            lemma_words_differ(s, i, "FilterIPv6"@, "FilterLast"@, 6);
        },
        StageView::Filter(FilterView::Name(_)) => {
            lemma_words_differ(s, i, "FilterName"@, "SortBy"@, 0);
            lemma_words_differ(s, i, "FilterName"@, "FilterIPv4"@, 6);
            lemma_words_differ(s, i, "FilterName"@, "FilterIPv6"@, 6);
            lemma_words_differ(s, i, "FilterName"@, "FilterFlags"@, 6);
            lemma_words_differ(s, i, "FilterName"@, "FilterForwardable"@, 6);
            lemma_words_differ(s, i, "FilterName"@, "FilterGlobal"@, 6);
            lemma_words_differ(s, i, "FilterName"@, "FilterFirst"@, 6);
            lemma_words_differ(s, i, "FilterName"@, "FilterLast"@, 6);
        },
        StageView::Filter(FilterView::Flags(_)) => {
            lemma_words_differ(s, i, "FilterFlags"@, "SortBy"@, 0);
            lemma_words_differ(s, i, "FilterFlags"@, "FilterIPv4"@, 6);
            lemma_words_differ(s, i, "FilterFlags"@, "FilterIPv6"@, 6);
            lemma_words_differ(s, i, "FilterFlags"@, "FilterName"@, 6);
            lemma_words_differ(s, i, "FilterFlags"@, "FilterForwardable"@, 7);
            lemma_words_differ(s, i, "FilterFlags"@, "FilterGlobal"@, 6);
            lemma_words_differ(s, i, "FilterFlags"@, "FilterFirst"@, 7);
            lemma_words_differ(s, i, "FilterFlags"@, "FilterLast"@, 6);
        },
        StageView::Filter(FilterView::Forwardable) => {
            lemma_words_differ(s, i, "FilterForwardable"@, "SortBy"@, 0);
            lemma_words_differ(s, i, "FilterForwardable"@, "FilterIPv4"@, 6);
            lemma_words_differ(s, i, "FilterForwardable"@, "FilterIPv6"@, 6);
            lemma_words_differ(s, i, "FilterForwardable"@, "FilterName"@, 6);
            lemma_words_differ(s, i, "FilterForwardable"@, "FilterFlags"@, 7);
            lemma_words_differ(s, i, "FilterForwardable"@, "FilterGlobal"@, 6);
            lemma_words_differ(s, i, "FilterForwardable"@, "FilterFirst"@, 7);
            lemma_words_differ(s, i, "FilterForwardable"@, "FilterLast"@, 6);
        },
        StageView::Filter(FilterView::Global) => {
            lemma_words_differ(s, i, "FilterGlobal"@, "SortBy"@, 0);
            lemma_words_differ(s, i, "FilterGlobal"@, "FilterIPv4"@, 6);
            lemma_words_differ(s, i, "FilterGlobal"@, "FilterIPv6"@, 6);
            lemma_words_differ(s, i, "FilterGlobal"@, "FilterName"@, 6);
            lemma_words_differ(s, i, "FilterGlobal"@, "FilterFlags"@, 6);
            lemma_words_differ(s, i, "FilterGlobal"@, "FilterForwardable"@, 6);
            lemma_words_differ(s, i, "FilterGlobal"@, "FilterFirst"@, 6);
            lemma_words_differ(s, i, "FilterGlobal"@, "FilterLast"@, 6);
        },
        StageView::Filter(FilterView::First) => {
            lemma_words_differ(s, i, "FilterFirst"@, "SortBy"@, 0);
            lemma_words_differ(s, i, "FilterFirst"@, "FilterIPv4"@, 6);
            lemma_words_differ(s, i, "FilterFirst"@, "FilterIPv6"@, 6);
            lemma_words_differ(s, i, "FilterFirst"@, "FilterName"@, 6);
            lemma_words_differ(s, i, "FilterFirst"@, "FilterFlags"@, 7);
            lemma_words_differ(s, i, "FilterFirst"@, "FilterForwardable"@, 7);
            lemma_words_differ(s, i, "FilterFirst"@, "FilterGlobal"@, 6);
            lemma_words_differ(s, i, "FilterFirst"@, "FilterLast"@, 6);
        },
        StageView::Filter(FilterView::Last) => {
            lemma_words_differ(s, i, "FilterLast"@, "SortBy"@, 0);
            lemma_words_differ(s, i, "FilterLast"@, "FilterIPv4"@, 6);
            lemma_words_differ(s, i, "FilterLast"@, "FilterIPv6"@, 6);
            lemma_words_differ(s, i, "FilterLast"@, "FilterName"@, 6);
            lemma_words_differ(s, i, "FilterLast"@, "FilterFlags"@, 6);
            lemma_words_differ(s, i, "FilterLast"@, "FilterForwardable"@, 6);
            lemma_words_differ(s, i, "FilterLast"@, "FilterGlobal"@, 6);
            lemma_words_differ(s, i, "FilterLast"@, "FilterFirst"@, 6);
        },
    }
}

/// The text of a stage is read as the stage.
pub proof fn lemma_stage_parse(s: Seq<char>, i: int, stage: StageView)
    requires
        has_word_at(s, i, render_stage(stage)),
        stage_quote_free(stage),
    ensures
        stage_at(s, i) == Ok::<_, SyntaxErrorView>((stage, i + render_stage(stage).len())),
        i < s.len() && !is_blank(s[i]),
{
    match stage {
        StageView::Filter(FilterView::Name(name)) => {
            lemma_with_argument_parse(s, i, "FilterName"@, name);
        },
        StageView::Filter(FilterView::Flags(flag)) => {
            lemma_with_argument_parse(s, i, "FilterFlags"@, flag);
        },
        StageView::Sort(SortView::By(attribute)) => {
            lemma_with_argument_parse(s, i, "SortBy"@, attribute);
        },
        _ => {},
    }
    lemma_stage_word(s, i, stage);
}

/// The text of a list of stages, standing at the end of a text, is read as
/// the list.
pub proof fn lemma_stages_parse(s: Seq<char>, i: int, stages: Seq<StageView>)
    requires
        has_word_at(s, i, render_stages(stages)),
        i + render_stages(stages).len() == s.len(),
        forall|k: int| 0 <= k < stages.len() ==> stage_quote_free(#[trigger] stages[k]),
    ensures
        stages_from(s, i) == Ok::<_, SyntaxErrorView>(stages),
    decreases stages.len(),
{
    if stages.len() == 0 {
        assert(stages =~= Seq::<StageView>::empty());
    } else {
        let pipe = seq![' ', '|', ' '];
        let first = stages.first();
        let rest = stages.drop_first();
        let head = render_stage(first);
        let tail = render_stages(rest);
        lemma_word_split(s, i, pipe, head + tail);
        lemma_word_split(s, i + 3, head, tail);
        lemma_word_chars(s, i, pipe, 0);
        lemma_word_chars(s, i, pipe, 1);
        lemma_word_chars(s, i, pipe, 2);
        lemma_stage_parse(s, i + 3, first);
        lemma_skip_blanks_to(s, i, i + 1);
        lemma_skip_blanks_to(s, i + 2, i + 3);
        assert forall|k: int| 0 <= k < rest.len() implies stage_quote_free(#[trigger] rest[k]) by {
            assert(rest[k] == stages[k + 1]);
        }
        lemma_stages_parse(s, i + 3 + head.len(), rest);
        assert(seq![first] + rest =~= stages);
    }
}

/// Reading back: the text of a pipeline whose arguments hold no double quote
/// parses, and parses to that pipeline.
pub proof fn lemma_parse_render(p: PipelineView)
    requires
        pipeline_quote_free(p),
    ensures
        template_spec(render(p)) == Ok::<_, SyntaxErrorView>(p),
{
    let s = render(p);
    let head = render_producer(p.producer);
    let tail = render_stages(p.stages);
    assert(s.subrange(0, s.len() as int) =~= s);
    lemma_word_split(s, 0, head, tail);
    lemma_producer_parse(s, 0, p.producer);
    lemma_skip_blanks_to(s, 0, 0);
    lemma_stages_parse(s, head.len() as int, p.stages);
}

} // verus!
