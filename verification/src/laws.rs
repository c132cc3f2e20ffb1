//! Laws of the pipeline: what holds of every template, whatever the
//! interfaces of the host are.

use crate::grammar::{FilterView, PipelineView, ProducerView, SortView, StageView};
use crate::pipeline::{
    addresses, all_bindings, default_first, eval_spec, expansion, filter_spec,
    owned_by, first_of, keep, last_of,
    lemma_filter_push, lemma_run_stages_concat, needs_route, pipeline_spec, run_stages, selector,
    sort_spec,
    stage_spec, BindingView, IfTErrorView, NetworkInterfaceView, RouteErrorView, CriterionView,
};
use crate::address::IpAddress;
use crate::render::{
    lemma_parse_render, quote_free, quoted, render, render_stage, render_stages, with_argument,
};
use crate::rfc::{rfc6890_entries, Rfc6890EntryView};
use vstd::prelude::*;

verus! {

/// Filtering what a filter kept by a property that all of it has changes
/// nothing.
pub proof fn lemma_filter_implied<A>(s: Seq<A>, p: spec_fn(A) -> bool, q: spec_fn(A) -> bool)
    requires
        forall|x: A| #[trigger] p(x) ==> q(x),
    ensures
        s.filter(p).filter(q) == s.filter(p),
    decreases s.len(),
{
    reveal(Seq::filter);
    if s.len() > 0 {
        let t = s.drop_last();
        let x = s.last();
        assert(s =~= t.push(x));
        lemma_filter_implied(t, p, q);
        lemma_filter_push(t, x, p);
        if p(x) {
            lemma_filter_push(t.filter(p), x, q);
        }
    }
}

/// Filtering what a filter kept by a property that none of it has leaves
/// nothing.
pub proof fn lemma_filter_excluded<A>(s: Seq<A>, p: spec_fn(A) -> bool, q: spec_fn(A) -> bool)
    requires
        forall|x: A| #[trigger] p(x) ==> !q(x),
    ensures
        s.filter(p).filter(q) == Seq::<A>::empty(),
    decreases s.len(),
{
    reveal(Seq::filter);
    if s.len() > 0 {
        let t = s.drop_last();
        let x = s.last();
        lemma_filter_excluded(t, p, q);
        lemma_filter_push(t, x, p);
        if p(x) {
            lemma_filter_push(t.filter(p), x, q);
        }
    }
}

/// The pipeline `p` with `more` stages after its own.
pub open spec fn followed_by(p: PipelineView, more: Seq<StageView>) -> PipelineView {
    PipelineView { producer: p.producer, stages: p.stages + more }
}

/// The bindings that reach the end of the pipeline, before their addresses
/// are taken.
pub open spec fn pipeline_bindings(
    p: PipelineView,
    interfaces: Seq<NetworkInterfaceView>,
    table: Seq<Rfc6890EntryView>,
    route: Result<Seq<char>, RouteErrorView>,
) -> Result<Seq<BindingView>, IfTErrorView> {
    run_stages(expansion(p.producer) + p.stages, all_bindings(interfaces), table, route)
}

/// More stages after a pipeline run on what the pipeline gives; an error of
/// the pipeline stays.
pub proof fn lemma_followed_by(
    p: PipelineView,
    more: Seq<StageView>,
    interfaces: Seq<NetworkInterfaceView>,
    table: Seq<Rfc6890EntryView>,
    route: Result<Seq<char>, RouteErrorView>,
)
    ensures
        pipeline_bindings(followed_by(p, more), interfaces, table, route) == match pipeline_bindings(
            p,
            interfaces,
            table,
            route,
        ) {
            Ok(bindings) => run_stages(more, bindings, table, route),
            Err(e) => Err(e),
        },
{
    assert(expansion(p.producer) + (p.stages + more) =~= (expansion(p.producer) + p.stages) + more);
    lemma_run_stages_concat(
        expansion(p.producer) + p.stages,
        more,
        all_bindings(interfaces),
        table,
        route,
    );
}

/// A single stage run as a list of stages.
pub proof fn lemma_run_one(
    stage: StageView,
    input: Seq<BindingView>,
    table: Seq<Rfc6890EntryView>,
    route: Result<Seq<char>, RouteErrorView>,
)
    ensures
        run_stages(seq![stage], input, table, route) == stage_spec(stage, input, table, route),
{
    let one = seq![stage];
    assert(one.drop_first() =~= Seq::<StageView>::empty());
    match stage_spec(stage, input, table, route) {
        Ok(next) => {
            assert(run_stages(Seq::<StageView>::empty(), next, table, route) == Ok::<
                _,
                IfTErrorView,
            >(next));
        },
        Err(_) => {},
    }
}

/// Two stages run as a list of stages.
pub proof fn lemma_run_two(
    first: StageView,
    second: StageView,
    input: Seq<BindingView>,
    table: Seq<Rfc6890EntryView>,
    route: Result<Seq<char>, RouteErrorView>,
)
    ensures
        run_stages(seq![first, second], input, table, route) == match stage_spec(
            first,
            input,
            table,
            route,
        ) {
            Ok(next) => stage_spec(second, next, table, route),
            Err(e) => Err(e),
        },
{
    assert(seq![first, second] =~= seq![first] + seq![second]);
    lemma_run_stages_concat(seq![first], seq![second], input, table, route);
    lemma_run_one(first, input, table, route);
    match stage_spec(first, input, table, route) {
        Ok(next) => {
            lemma_run_one(second, next, table, route);
        },
        Err(_) => {},
    }
}

/// `GetInterface "X"` is `GetAllInterfaces | FilterName "X"`, whatever
/// stages follow.
pub proof fn lemma_get_interface_is_sugar(
    name: Seq<char>,
    stages: Seq<StageView>,
    interfaces: Seq<NetworkInterfaceView>,
    table: Seq<Rfc6890EntryView>,
    route: Result<Seq<char>, RouteErrorView>,
)
    ensures
        pipeline_spec(
            PipelineView { producer: ProducerView::GetInterface(name), stages },
            interfaces,
            table,
            route,
        ) == pipeline_spec(
            PipelineView {
                producer: ProducerView::GetAllInterfaces,
                stages: seq![StageView::Filter(FilterView::Name(name))] + stages,
            },
            interfaces,
            table,
            route,
        ),
{
    let sugar = seq![StageView::Filter(FilterView::Name(name))];
    assert(expansion(ProducerView::GetInterface(name)) + stages =~= expansion(
        ProducerView::GetAllInterfaces,
    ) + (sugar + stages));
}

/// `GetPrivateInterfaces` is `GetAllInterfaces | FilterFlags "up" |
/// FilterForwardable | SortBy "default"`, whatever stages follow.
pub proof fn lemma_get_private_interfaces_is_sugar(
    stages: Seq<StageView>,
    interfaces: Seq<NetworkInterfaceView>,
    table: Seq<Rfc6890EntryView>,
    route: Result<Seq<char>, RouteErrorView>,
)
    ensures
        pipeline_spec(
            PipelineView { producer: ProducerView::GetPrivateInterfaces, stages },
            interfaces,
            table,
            route,
        ) == pipeline_spec(
            PipelineView {
                producer: ProducerView::GetAllInterfaces,
                stages: seq![
                    StageView::Filter(FilterView::Flags("up"@)),
                    StageView::Filter(FilterView::Forwardable),
                    StageView::Sort(SortView::By("default"@)),
                ] + stages,
            },
            interfaces,
            table,
            route,
        ),
{
    let sugar = seq![
        StageView::Filter(FilterView::Flags("up"@)),
        StageView::Filter(FilterView::Forwardable),
        StageView::Sort(SortView::By("default"@)),
    ];
    assert(expansion(ProducerView::GetPrivateInterfaces) + stages =~= expansion(
        ProducerView::GetAllInterfaces,
    ) + (sugar + stages));
}

/// Selecting by a property twice is selecting by it once.
pub proof fn lemma_keep_idempotent(input: Seq<BindingView>, test: CriterionView)
    ensures
        keep(keep(input, test), test) == keep(input, test),
{
    lemma_filter_implied(input, selector(test, true), selector(test, true));
}

/// Idempotence: `FilterIPv4 | FilterIPv4` after any pipeline gives what one
/// `FilterIPv4` gives, and so for `FilterIPv6`.
pub proof fn lemma_filter_version_twice(
    p: PipelineView,
    version: FilterView,
    interfaces: Seq<NetworkInterfaceView>,
    table: Seq<Rfc6890EntryView>,
    route: Result<Seq<char>, RouteErrorView>,
)
    requires
        version is IPv4 || version is IPv6,
    ensures
        pipeline_spec(
            followed_by(p, seq![StageView::Filter(version), StageView::Filter(version)]),
            interfaces,
            table,
            route,
        ) == pipeline_spec(followed_by(p, seq![StageView::Filter(version)]), interfaces, table, route),
{
    let once = seq![StageView::Filter(version)];
    let twice = seq![StageView::Filter(version), StageView::Filter(version)];
    lemma_followed_by(p, once, interfaces, table, route);
    lemma_followed_by(p, twice, interfaces, table, route);
    match pipeline_bindings(p, interfaces, table, route) {
        Ok(bindings) => {
            lemma_keep_idempotent(bindings, CriterionView::IPv4);
            lemma_keep_idempotent(bindings, CriterionView::IPv6);
            lemma_run_one(StageView::Filter(version), bindings, table, route);
            lemma_run_two(
                StageView::Filter(version),
                StageView::Filter(version),
                bindings,
                table,
                route,
            );
        },
        Err(_) => {},
    }
}

/// Emptiness: no binding passes both `FilterIPv4` and `FilterIPv6`.
pub proof fn lemma_keep_both_versions(input: Seq<BindingView>)
    ensures
        keep(keep(input, CriterionView::IPv4), CriterionView::IPv6) == Seq::<BindingView>::empty(),
        keep(keep(input, CriterionView::IPv6), CriterionView::IPv4) == Seq::<BindingView>::empty(),
{
    lemma_filter_excluded(input, selector(CriterionView::IPv4, true), selector(CriterionView::IPv6, true));
    lemma_filter_excluded(input, selector(CriterionView::IPv6, true), selector(CriterionView::IPv4, true));
}

/// Emptiness: `FilterIPv4 | FilterIPv6` after any pipeline that gives no
/// error selects no address.
pub proof fn lemma_filter_both_versions(
    p: PipelineView,
    interfaces: Seq<NetworkInterfaceView>,
    table: Seq<Rfc6890EntryView>,
    route: Result<Seq<char>, RouteErrorView>,
)
    ensures
        pipeline_spec(
            followed_by(
                p,
                seq![StageView::Filter(FilterView::IPv4), StageView::Filter(FilterView::IPv6)],
            ),
            interfaces,
            table,
            route,
        ) == match pipeline_spec(p, interfaces, table, route) {
            Ok(_) => Ok(Seq::<IpAddress>::empty()),
            Err(e) => Err(e),
        },
{
    let both = seq![StageView::Filter(FilterView::IPv4), StageView::Filter(FilterView::IPv6)];
    lemma_followed_by(p, both, interfaces, table, route);
    match pipeline_bindings(p, interfaces, table, route) {
        Ok(bindings) => {
            lemma_keep_both_versions(bindings);
            lemma_run_two(
                StageView::Filter(FilterView::IPv4),
                StageView::Filter(FilterView::IPv6),
                bindings,
                table,
                route,
            );
            assert(addresses(Seq::<BindingView>::empty()) =~= Seq::<IpAddress>::empty());
        },
        Err(_) => {},
    }
}

/// Stability of `SortBy "default"`: the stage gives the bindings that
/// reach it with those of the default interface moved to the front. The
/// bindings that the default interface does not own come out in the order in
/// which they went in, and so do those that it owns; none is lost or added.
pub proof fn lemma_sort_default_stable(input: Seq<BindingView>, default_name: Seq<char>)
    ensures
        sort_spec(SortView::By("default"@), input, Ok(default_name)) == Ok::<_, IfTErrorView>(
            default_first(input, default_name),
        ),
        default_first(input, default_name).filter(selector(CriterionView::Name(default_name), false))
            == input.filter(selector(CriterionView::Name(default_name), false)),
        default_first(input, default_name).filter(selector(CriterionView::Name(default_name), true))
            == input.filter(selector(CriterionView::Name(default_name), true)),
        default_first(input, default_name).len() == input.len(),
        default_first(input, default_name).to_multiset() == input.to_multiset(),
{
    let owned = selector(CriterionView::Name(default_name), true);
    let other = selector(CriterionView::Name(default_name), false);
    let front = input.filter(owned);
    let back = input.filter(other);
    Seq::filter_distributes_over_add(front, back, other);
    Seq::filter_distributes_over_add(front, back, owned);
    lemma_filter_excluded(input, owned, other);
    lemma_filter_excluded(input, other, owned);
    lemma_filter_implied(input, owned, owned);
    lemma_filter_implied(input, other, other);
    lemma_partition(input, owned, other);
}

/// Order of `SortBy "default"`: in what the stage gives, no binding of
/// the default interface stands behind a binding that the default interface
/// does not own.
pub proof fn lemma_sort_default_ordered(
    input: Seq<BindingView>,
    default_name: Seq<char>,
    i: int,
    j: int,
)
    requires
        0 <= i <= j < default_first(input, default_name).len(),
        owned_by(default_first(input, default_name)[j], default_name),
    ensures
        owned_by(default_first(input, default_name)[i], default_name),
{
    let owned = selector(CriterionView::Name(default_name), true);
    let other = selector(CriterionView::Name(default_name), false);
    let front = input.filter(owned);
    let back = input.filter(other);
    broadcast use Seq::lemma_filter_pred;

    if j >= front.len() {
        assert(other(back[j - front.len()]));
    } else {
        assert(owned(front[i]));
    }
}

/// A sequence split by a property and its opposite holds what the sequence
/// holds, each element as often.
pub proof fn lemma_partition<A>(s: Seq<A>, p: spec_fn(A) -> bool, q: spec_fn(A) -> bool)
    requires
        forall|x: A| #[trigger] p(x) <==> !q(x),
    ensures
        (s.filter(p) + s.filter(q)).to_multiset() == s.to_multiset(),
        (s.filter(p) + s.filter(q)).len() == s.len(),
    decreases s.len(),
{
    broadcast use vstd::seq_lib::group_to_multiset_ensures;

    reveal(Seq::filter);
    if s.len() > 0 {
        let t = s.drop_last();
        let x = s.last();
        assert(s =~= t.push(x));
        lemma_partition(t, p, q);
        lemma_filter_push(t, x, p);
        lemma_filter_push(t, x, q);
        vstd::seq_lib::lemma_multiset_commutative(t.filter(p), t.filter(q));
        if p(x) {
            vstd::seq_lib::lemma_multiset_commutative(t.filter(p).push(x), t.filter(q));
        } else {
            assert(t.filter(p) + t.filter(q).push(x) =~= (t.filter(p) + t.filter(q)).push(x));
        }
    }
}

/// Boundary: `FilterFirst` and `FilterLast` give nothing where nothing
/// reaches them, and one binding otherwise.
pub proof fn lemma_first_last_bounds(input: Seq<BindingView>, table: Seq<Rfc6890EntryView>)
    ensures
        input.len() == 0 ==> filter_spec(FilterView::First, input, table) == Ok::<_, IfTErrorView>(
            Seq::<BindingView>::empty(),
        ),
        input.len() == 0 ==> filter_spec(FilterView::Last, input, table) == Ok::<_, IfTErrorView>(
            Seq::<BindingView>::empty(),
        ),
        input.len() > 0 ==> first_of(input) == seq![input[0]],
        input.len() > 0 ==> last_of(input) == seq![input[input.len() - 1]],
{
    if input.len() == 0 {
        assert(input =~= Seq::<BindingView>::empty());
    }
}

/// The text of a single stage after a pipe.
proof fn lemma_render_one(stage: StageView)
    ensures
        render_stages(seq![stage]) == seq![' ', '|', ' '] + render_stage(stage),
{
    let one = seq![stage];
    assert(render_stages(one.drop_first()) =~= Seq::<char>::empty());
}

/// The text of stages in front of others.
proof fn lemma_render_concat(a: Seq<StageView>, b: Seq<StageView>)
    ensures
        render_stages(a + b) == render_stages(a) + render_stages(b),
    decreases a.len(),
{
    if a.len() == 0 {
        assert(a + b =~= b);
    } else {
        assert((a + b).drop_first() =~= a.drop_first() + b);
        lemma_render_concat(a.drop_first(), b);
    }
}

/// A text that ends in an opening quote, then a text and a closing quote,
/// is the text before its last two characters with the quoted argument.
proof fn lemma_argument_text(prefix: Seq<char>, opened: Seq<char>, name: Seq<char>)
    requires
        opened == prefix + seq![' ', '"'],
    ensures
        opened + name + "\""@ == prefix + (seq![' '] + quoted(name)),
{
    reveal_strlit("\"");
}

/// The pipeline that `GetInterface "X"` spells.
pub open spec fn get_interface(name: Seq<char>) -> PipelineView {
    PipelineView { producer: ProducerView::GetInterface(name), stages: Seq::<StageView>::empty() }
}

/// The pipeline that `GetAllInterfaces | FilterName "X"` spells.
pub open spec fn get_all_filter_name(name: Seq<char>) -> PipelineView {
    PipelineView {
        producer: ProducerView::GetAllInterfaces,
        stages: seq![StageView::Filter(FilterView::Name(name))],
    }
}

/// The text of `GetInterface "X"`.
proof fn lemma_text_get_interface(name: Seq<char>)
    ensures
        render(get_interface(name)) == "GetInterface \""@ + name + "\""@,
{
    reveal_strlit("GetInterface \"");
    reveal_strlit("GetInterface");
    assert("GetInterface \""@ =~= "GetInterface"@ + seq![' ', '"']);
    lemma_argument_text("GetInterface"@, "GetInterface \""@, name);
}

/// The text of `GetAllInterfaces | FilterName "X"`.
proof fn lemma_text_get_all_filter_name(name: Seq<char>)
    ensures
        render(get_all_filter_name(name)) == "GetAllInterfaces | FilterName \""@ + name + "\""@,
{
    reveal_strlit("GetAllInterfaces | FilterName \"");
    reveal_strlit("GetAllInterfaces");
    reveal_strlit("FilterName");
    let prefix = "GetAllInterfaces"@ + (seq![' ', '|', ' '] + "FilterName"@);
    assert("GetAllInterfaces | FilterName \""@ =~= prefix + seq![' ', '"']);
    lemma_argument_text(prefix, "GetAllInterfaces | FilterName \""@, name);
    lemma_render_one(StageView::Filter(FilterView::Name(name)));
}

/// Equivalence: the template `GetInterface "X"` selects exactly what
/// `GetAllInterfaces | FilterName "X"` selects, for every name `X` that can
/// stand between double quotes.
pub proof fn lemma_get_interface_equivalence(
    name: Seq<char>,
    interfaces: Seq<NetworkInterfaceView>,
    route: Result<Seq<char>, RouteErrorView>,
)
    requires
        quote_free(name),
    ensures
        eval_spec("GetInterface \""@ + name + "\""@, interfaces, route) == eval_spec(
            "GetAllInterfaces | FilterName \""@ + name + "\""@,
            interfaces,
            route,
        ),
{
    lemma_text_get_interface(name);
    lemma_text_get_all_filter_name(name);
    lemma_parse_render(get_interface(name));
    lemma_parse_render(get_all_filter_name(name));
    lemma_get_interface_is_sugar(
        name,
        Seq::<StageView>::empty(),
        interfaces,
        rfc6890_entries(),
        route,
    );
}

/// Equivalence: the template `GetPrivateInterfaces` selects exactly what
/// `GetAllInterfaces | FilterFlags "up" | FilterForwardable | SortBy
/// "default"` selects.
pub proof fn lemma_get_private_interfaces_equivalence(
    interfaces: Seq<NetworkInterfaceView>,
    route: Result<Seq<char>, RouteErrorView>,
)
    ensures
        eval_spec("GetPrivateInterfaces"@, interfaces, route) == eval_spec(
            "GetAllInterfaces | FilterFlags \"up\" | FilterForwardable | SortBy \"default\""@,
            interfaces,
            route,
        ),
{
    reveal_strlit("GetPrivateInterfaces");
    reveal_strlit("GetAllInterfaces | FilterFlags \"up\" | FilterForwardable | SortBy \"default\"");
    reveal_strlit("GetAllInterfaces");
    reveal_strlit("FilterFlags");
    reveal_strlit("FilterForwardable");
    reveal_strlit("SortBy");
    reveal_strlit("up");
    reveal_strlit("default");
    let up = StageView::Filter(FilterView::Flags("up"@));
    let forwardable = StageView::Filter(FilterView::Forwardable);
    let by_default = StageView::Sort(SortView::By("default"@));
    let sugar = seq![up, forwardable, by_default];
    let short = PipelineView {
        producer: ProducerView::GetPrivateInterfaces,
        stages: Seq::<StageView>::empty(),
    };
    let long = PipelineView { producer: ProducerView::GetAllInterfaces, stages: sugar };
    assert(sugar =~= seq![up] + (seq![forwardable] + seq![by_default]));
    lemma_render_concat(seq![up], seq![forwardable] + seq![by_default]);
    lemma_render_concat(seq![forwardable], seq![by_default]);
    lemma_render_one(up);
    lemma_render_one(forwardable);
    lemma_render_one(by_default);
    assert(render(long)
        =~= "GetAllInterfaces | FilterFlags \"up\" | FilterForwardable | SortBy \"default\""@);
    lemma_parse_render(short);
    lemma_parse_render(long);
    lemma_get_private_interfaces_is_sugar(
        Seq::<StageView>::empty(),
        interfaces,
        rfc6890_entries(),
        route,
    );
}

/// Stages that do not sort give the same whatever is known of the default
/// route.
pub proof fn lemma_filters_ignore_route(
    stages: Seq<StageView>,
    input: Seq<BindingView>,
    table: Seq<Rfc6890EntryView>,
    route: Result<Seq<char>, RouteErrorView>,
    other: Result<Seq<char>, RouteErrorView>,
)
    requires
        forall|k: int| 0 <= k < stages.len() ==> !(#[trigger] stages[k] is Sort),
    ensures
        run_stages(stages, input, table, route) == run_stages(stages, input, table, other),
    decreases stages.len(),
{
    if stages.len() > 0 {
        assert forall|k: int| 0 <= k < stages.drop_first().len() implies !(
        #[trigger] stages.drop_first()[k] is Sort) by {
            assert(stages.drop_first()[k] == stages[k + 1]);
        }
        match stage_spec(stages.first(), input, table, route) {
            Ok(next) => {
                lemma_filters_ignore_route(stages.drop_first(), next, table, route, other);
            },
            Err(_) => {},
        }
    }
}

/// A pipeline that does not look at the default route selects the same
/// whatever is known of it, so the lookup can be left out.
pub proof fn lemma_route_not_needed(
    p: PipelineView,
    interfaces: Seq<NetworkInterfaceView>,
    table: Seq<Rfc6890EntryView>,
    route: Result<Seq<char>, RouteErrorView>,
    other: Result<Seq<char>, RouteErrorView>,
)
    requires
        !needs_route(p),
    ensures
        pipeline_spec(p, interfaces, table, route) == pipeline_spec(p, interfaces, table, other),
{
    let all = expansion(p.producer) + p.stages;
    assert forall|k: int| 0 <= k < all.len() implies !(#[trigger] all[k] is Sort) by {
        if k >= expansion(p.producer).len() {
            assert(all[k] == p.stages[k - expansion(p.producer).len()]);
        }
    }
    lemma_filters_ignore_route(all, all_bindings(interfaces), table, route, other);
}

} // verus!
