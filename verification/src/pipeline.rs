//! The pipeline evaluator: a producer makes one binding for each address of
//! each interface, and each stage turns the sequence of bindings that
//! reaches it into the next one.

use crate::address::IpAddress;
use crate::grammar::{
    Filter, FilterView, IfTParser, Pipeline, PipelineView, Producer, ProducerView, Sort, SortView,
    Stage, StageView, SyntaxError, SyntaxErrorView, stage_views, template_spec,
};
use crate::rfc::{forwardable_in, global_in, rfc6890_entries, Rfc6890EntryView, WithRfc6890};
use vstd::prelude::*;

verus! {

/// A network interface of the host, as the enumeration of interfaces
/// reports it.
#[derive(Clone, Debug, PartialEq, Eq)]
pub struct NetworkInterface {
    /// The interface's name, such as `eth0`.
    pub name: String,
    /// Whether the interface is up.
    pub up: bool,
    /// The addresses bound to the interface, in the order reported.
    pub ips: Vec<IpAddress>,
}

/// The mathematical value of a [`NetworkInterface`].
pub struct NetworkInterfaceView {
    pub name: Seq<char>,
    pub up: bool,
    pub ips: Seq<IpAddress>,
}

impl View for NetworkInterface {
    type V = NetworkInterfaceView;

    open spec fn view(&self) -> NetworkInterfaceView {
        NetworkInterfaceView { name: self.name@, up: self.up, ips: self.ips@ }
    }
}

/// The views of a sequence of interfaces, in order.
pub open spec fn interface_views(interfaces: Seq<NetworkInterface>) -> Seq<NetworkInterfaceView> {
    Seq::new(interfaces.len(), |i: int| interfaces[i]@)
}

/// One address together with the interface that owns it. An interface with
/// several addresses gives several bindings, so that a filter can look at the
/// address or at the interface.
#[derive(Clone, Copy, Debug)]
pub struct Ip2NetworkInterface<'a> {
    pub ip_addr: IpAddress,
    pub interface: Option<&'a NetworkInterface>,
}

/// The mathematical value of an [`Ip2NetworkInterface`].
pub struct BindingView {
    pub ip_addr: IpAddress,
    pub interface: Option<NetworkInterfaceView>,
}

impl<'a> View for Ip2NetworkInterface<'a> {
    type V = BindingView;

    open spec fn view(&self) -> BindingView {
        BindingView {
            ip_addr: self.ip_addr,
            interface: match self.interface {
                Some(i) => Some(i@),
                None => None,
            },
        }
    }
}

/// The views of a sequence of bindings, in order.
pub open spec fn binding_views(bindings: Seq<Ip2NetworkInterface>) -> Seq<BindingView> {
    Seq::new(bindings.len(), |i: int| bindings[i]@)
}

/// The addresses of a sequence of bindings, in order.
pub open spec fn addresses(bindings: Seq<BindingView>) -> Seq<IpAddress> {
    Seq::new(bindings.len(), |i: int| bindings[i].ip_addr)
}

/// The state of an interface that `FilterFlags` asks for.
#[derive(Clone, Copy, Debug, PartialEq, Eq, Structural)]
pub enum IfTFlag {
    UP,
    DOWN,
}

/// Why the name of the default route's interface could not be had.
#[derive(Clone, Debug, PartialEq, Eq)]
pub enum RouteError {
    /// The lookup itself failed.
    Io(String),
    /// The lookup's answer was no text.
    Utf8(String),
}

/// The mathematical value of a [`RouteError`].
pub enum RouteErrorView {
    Io(Seq<char>),
    Utf8(Seq<char>),
}

impl View for RouteError {
    type V = RouteErrorView;

    open spec fn view(&self) -> RouteErrorView {
        match self {
            RouteError::Io(m) => RouteErrorView::Io(m@),
            RouteError::Utf8(m) => RouteErrorView::Utf8(m@),
        }
    }
}

/// What is known of the default route when a template is evaluated: the name
/// of its interface, or why the lookup failed.
pub open spec fn route_view(route: Result<String, RouteError>) -> Result<Seq<char>, RouteErrorView> {
    match route {
        Ok(name) => Ok(name@),
        Err(e) => Err(e@),
    }
}

/// The errors that the evaluation of a template can end in.
#[derive(Clone, Debug, PartialEq, Eq)]
pub enum IfTError {
    /// The default route's lookup gave no text.
    Utf8(String),
    /// The default route's lookup failed.
    Io(String),
    /// The template does not follow the grammar.
    Syntax(SyntaxError),
    /// `FilterFlags` was given something other than `up` or `down`.
    IfTFlagError(String),
    /// `SortBy` was given an attribute that is not supported.
    IfTArgumentError(String),
}

/// The mathematical value of an [`IfTError`].
pub enum IfTErrorView {
    Utf8(Seq<char>),
    Io(Seq<char>),
    Syntax(SyntaxErrorView),
    IfTFlagError(Seq<char>),
    IfTArgumentError(Seq<char>),
}

impl View for IfTError {
    type V = IfTErrorView;

    open spec fn view(&self) -> IfTErrorView {
        match self {
            IfTError::Utf8(m) => IfTErrorView::Utf8(m@),
            IfTError::Io(m) => IfTErrorView::Io(m@),
            IfTError::Syntax(e) => IfTErrorView::Syntax(e@),
            IfTError::IfTFlagError(flag) => IfTErrorView::IfTFlagError(flag@),
            IfTError::IfTArgumentError(argument) => IfTErrorView::IfTArgumentError(argument@),
        }
    }
}

/// The error that a failed lookup of the default route ends a template in.
pub open spec fn route_failure(e: RouteErrorView) -> IfTErrorView {
    match e {
        RouteErrorView::Io(m) => IfTErrorView::Io(m),
        RouteErrorView::Utf8(m) => IfTErrorView::Utf8(m),
    }
}

/// The bindings of one interface: one for each of its addresses, in order.
pub open spec fn bindings_of(interface: NetworkInterfaceView) -> Seq<BindingView> {
    Seq::new(
        interface.ips.len(),
        |k: int| BindingView { ip_addr: interface.ips[k], interface: Some(interface) },
    )
}

/// The bindings of all interfaces: those of the first interface, then those
/// of the second, and so on.
pub open spec fn all_bindings(interfaces: Seq<NetworkInterfaceView>) -> Seq<BindingView>
    decreases interfaces.len(),
{
    if interfaces.len() == 0 {
        Seq::empty()
    } else {
        all_bindings(interfaces.drop_last()) + bindings_of(interfaces.last())
    }
}

/// The flag that a text names: `up` or `down`, and nothing else.
pub open spec fn flag_of(text: Seq<char>) -> Option<IfTFlag> {
    if text == "up"@ {
        Some(IfTFlag::UP)
    } else if text == "down"@ {
        Some(IfTFlag::DOWN)
    } else {
        None
    }
}

/// Whether the binding's interface has the given name. A binding without an
/// interface has no name.
pub open spec fn owned_by(b: BindingView, name: Seq<char>) -> bool {
    match b.interface {
        Some(i) => i.name == name,
        None => false,
    }
}

/// Whether the binding's interface is in the given state. A binding without
/// an interface is in neither.
pub open spec fn has_flag(b: BindingView, flag: IfTFlag) -> bool {
    match b.interface {
        Some(i) => match flag {
            IfTFlag::UP => i.up,
            IfTFlag::DOWN => !i.up,
        },
        None => false,
    }
}

/// The mathematical value of a [`Criterion`].
pub enum CriterionView {
    IPv4,
    IPv6,
    Name(Seq<char>),
    Flag(IfTFlag),
    Forwardable(Seq<Rfc6890EntryView>),
    Global(Seq<Rfc6890EntryView>),
}

/// Whether the binding has the property.
pub open spec fn passes(test: CriterionView, b: BindingView) -> bool {
    match test {
        CriterionView::IPv4 => b.ip_addr is V4,
        CriterionView::IPv6 => b.ip_addr is V6,
        CriterionView::Name(name) => owned_by(b, name),
        CriterionView::Flag(flag) => has_flag(b, flag),
        CriterionView::Forwardable(table) => forwardable_in(table, b.ip_addr),
        CriterionView::Global(table) => global_in(table, b.ip_addr),
    }
}

/// The bindings that have the property (`wanted`), or those that lack it.
pub open spec fn selector(test: CriterionView, wanted: bool) -> spec_fn(BindingView) -> bool {
    |b: BindingView| passes(test, b) == wanted
}

/// The bindings of `input` that have the property, in their order.
pub open spec fn keep(input: Seq<BindingView>, test: CriterionView) -> Seq<BindingView> {
    input.filter(selector(test, true))
}

/// At most the first binding.
pub open spec fn first_of(input: Seq<BindingView>) -> Seq<BindingView> {
    if input.len() == 0 {
        input
    } else {
        seq![input.first()]
    }
}

/// At most the last binding.
pub open spec fn last_of(input: Seq<BindingView>) -> Seq<BindingView> {
    if input.len() == 0 {
        input
    } else {
        seq![input.last()]
    }
}

/// The bindings of the default route's interface first, then all others;
/// inside each of the two groups the order of `input` stays.
pub open spec fn default_first(input: Seq<BindingView>, default_name: Seq<char>) -> Seq<
    BindingView,
> {
    input.filter(selector(CriterionView::Name(default_name), true)) + input.filter(
        selector(CriterionView::Name(default_name), false),
    )
}

/// What a filter makes of the bindings that reach it.
pub open spec fn filter_spec(
    filter: FilterView,
    input: Seq<BindingView>,
    table: Seq<Rfc6890EntryView>,
) -> Result<Seq<BindingView>, IfTErrorView> {
    match filter {
        FilterView::IPv4 => Ok(keep(input, CriterionView::IPv4)),
        FilterView::IPv6 => Ok(keep(input, CriterionView::IPv6)),
        FilterView::Name(name) => Ok(keep(input, CriterionView::Name(name))),
        FilterView::Flags(text) => match flag_of(text) {
            Some(flag) => Ok(keep(input, CriterionView::Flag(flag))),
            None => Err(IfTErrorView::IfTFlagError(text)),
        },
        FilterView::Forwardable => Ok(keep(input, CriterionView::Forwardable(table))),
        FilterView::Global => Ok(keep(input, CriterionView::Global(table))),
        FilterView::First => Ok(first_of(input)),
        FilterView::Last => Ok(last_of(input)),
    }
}

/// What a sort makes of the bindings that reach it. The default route is
/// needed before the attribute is looked at, so a failed lookup comes before
/// an unsupported attribute.
pub open spec fn sort_spec(
    sort: SortView,
    input: Seq<BindingView>,
    route: Result<Seq<char>, RouteErrorView>,
) -> Result<Seq<BindingView>, IfTErrorView> {
    match sort {
        SortView::By(attribute) => match route {
            Err(e) => Err(route_failure(e)),
            Ok(default_name) => if attribute == "default"@ {
                Ok(default_first(input, default_name))
            } else {
                Err(IfTErrorView::IfTArgumentError(attribute))
            },
        },
    }
}

/// What a stage makes of the bindings that reach it.
pub open spec fn stage_spec(
    stage: StageView,
    input: Seq<BindingView>,
    table: Seq<Rfc6890EntryView>,
    route: Result<Seq<char>, RouteErrorView>,
) -> Result<Seq<BindingView>, IfTErrorView> {
    match stage {
        StageView::Filter(filter) => filter_spec(filter, input, table),
        StageView::Sort(sort) => sort_spec(sort, input, route),
    }
}

/// The stages applied one after the other, first to last; the first error
/// ends the run.
pub open spec fn run_stages(
    stages: Seq<StageView>,
    input: Seq<BindingView>,
    table: Seq<Rfc6890EntryView>,
    route: Result<Seq<char>, RouteErrorView>,
) -> Result<Seq<BindingView>, IfTErrorView>
    decreases stages.len(),
{
    if stages.len() == 0 {
        Ok(input)
    } else {
        match stage_spec(stages.first(), input, table, route) {
            Ok(next) => run_stages(stages.drop_first(), next, table, route),
            Err(e) => Err(e),
        }
    }
}

/// The stages that a producer stands for, to be run on the bindings of all
/// interfaces.
pub open spec fn expansion(producer: ProducerView) -> Seq<StageView> {
    match producer {
        ProducerView::GetAllInterfaces => Seq::empty(),
        ProducerView::GetInterface(name) => seq![StageView::Filter(FilterView::Name(name))],
        ProducerView::GetPrivateInterfaces => seq![
            StageView::Filter(FilterView::Flags("up"@)),
            StageView::Filter(FilterView::Forwardable),
            StageView::Sort(SortView::By("default"@)),
        ],
    }
}

/// The addresses that a pipeline selects.
pub open spec fn pipeline_spec(
    pipeline: PipelineView,
    interfaces: Seq<NetworkInterfaceView>,
    table: Seq<Rfc6890EntryView>,
    route: Result<Seq<char>, RouteErrorView>,
) -> Result<Seq<IpAddress>, IfTErrorView> {
    match run_stages(
        expansion(pipeline.producer) + pipeline.stages,
        all_bindings(interfaces),
        table,
        route,
    ) {
        Ok(bindings) => Ok(addresses(bindings)),
        Err(e) => Err(e),
    }
}

/// The addresses that a template selects: a syntax error where the text is
/// no template, else what its pipeline selects with the RFC 6890 table.
pub open spec fn eval_spec(
    template: Seq<char>,
    interfaces: Seq<NetworkInterfaceView>,
    route: Result<Seq<char>, RouteErrorView>,
) -> Result<Seq<IpAddress>, IfTErrorView> {
    match template_spec(template) {
        Ok(pipeline) => pipeline_spec(pipeline, interfaces, rfc6890_entries(), route),
        Err(e) => Err(IfTErrorView::Syntax(e)),
    }
}

/// A property of a binding that a stage selects by.
pub enum Criterion<'a> {
    IPv4,
    IPv6,
    Name(&'a String),
    Flag(IfTFlag),
    Forwardable(&'a WithRfc6890),
    Global(&'a WithRfc6890),
}

impl<'a> View for Criterion<'a> {
    type V = CriterionView;

    open spec fn view(&self) -> CriterionView {
        match self {
            Criterion::IPv4 => CriterionView::IPv4,
            Criterion::IPv6 => CriterionView::IPv6,
            Criterion::Name(name) => CriterionView::Name(name@),
            Criterion::Flag(flag) => CriterionView::Flag(*flag),
            Criterion::Forwardable(rfc) => CriterionView::Forwardable(rfc@),
            Criterion::Global(rfc) => CriterionView::Global(rfc@),
        }
    }
}

/// What a stage returned, as views.
pub open spec fn bindings_result(r: Result<Vec<Ip2NetworkInterface>, IfTError>) -> Result<
    Seq<BindingView>,
    IfTErrorView,
> {
    match r {
        Ok(bindings) => Ok(binding_views(bindings@)),
        Err(e) => Err(e@),
    }
}

/// What an evaluation returned, as views.
pub open spec fn addresses_result(r: Result<Vec<IpAddress>, IfTError>) -> Result<
    Seq<IpAddress>,
    IfTErrorView,
> {
    match r {
        Ok(ips) => Ok(ips@),
        Err(e) => Err(e@),
    }
}

/// Filtering a sequence with one more element at its end.
pub proof fn lemma_filter_push<A>(s: Seq<A>, x: A, pred: spec_fn(A) -> bool)
    ensures
        s.push(x).filter(pred) == if pred(x) {
            s.filter(pred).push(x)
        } else {
            s.filter(pred)
        },
{
    reveal(Seq::filter);
    assert(s.push(x).drop_last() =~= s);
}

/// Running two lists of stages one after the other is running their
/// concatenation.
pub proof fn lemma_run_stages_concat(
    a: Seq<StageView>,
    b: Seq<StageView>,
    input: Seq<BindingView>,
    table: Seq<Rfc6890EntryView>,
    route: Result<Seq<char>, RouteErrorView>,
)
    ensures
        run_stages(a + b, input, table, route) == match run_stages(a, input, table, route) {
            Ok(mid) => run_stages(b, mid, table, route),
            Err(e) => Err(e),
        },
    decreases a.len(),
{
    if a.len() == 0 {
        assert(a + b =~= b);
    } else {
        assert((a + b).drop_first() =~= a.drop_first() + b);
        match stage_spec(a.first(), input, table, route) {
            Ok(next) => {
                lemma_run_stages_concat(a.drop_first(), b, next, table, route);
            },
            Err(_) => {},
        }
    }
}

impl IfTFlag {
    /// The flag that `flag` names, or the error that says it names none.
    pub fn from_text(flag: &str) -> (r: Result<IfTFlag, IfTError>)
        ensures
            match r {
                Ok(f) => flag_of(flag@) == Some(f),
                Err(e) => flag_of(flag@) is None && e@ == IfTErrorView::IfTFlagError(flag@),
            },
    {
        let text = flag.to_owned();
        if text == "up".to_owned() {
            Ok(IfTFlag::UP)
        } else if text == "down".to_owned() {
            Ok(IfTFlag::DOWN)
        } else {
            Err(IfTError::IfTFlagError(text))
        }
    }
}

/// Whether the binding's interface is in the given state.
pub fn filter_by_flag(ip: &Ip2NetworkInterface, flag: &IfTFlag) -> (r: bool)
    ensures
        r == has_flag(ip@, *flag),
{
    match ip.interface {
        Some(interface) => match flag {
            IfTFlag::UP => interface.up,
            IfTFlag::DOWN => !interface.up,
        },
        None => false,
    }
}

/// Whether the binding's interface has the given name.
pub fn filter_by_name(ip: &Ip2NetworkInterface, interface_name: &String) -> (r: bool)
    ensures
        r == owned_by(ip@, interface_name@),
{
    match ip.interface {
        Some(interface) => interface.name == *interface_name,
        None => false,
    }
}

/// Whether the binding has the property.
fn check(test: &Criterion, b: &Ip2NetworkInterface) -> (r: bool)
    ensures
        r == passes(test@, b@),
{
    match test {
        Criterion::IPv4 => b.ip_addr.is_ipv4(),
        Criterion::IPv6 => b.ip_addr.is_ipv6(),
        Criterion::Name(name) => filter_by_name(b, name),
        Criterion::Flag(flag) => filter_by_flag(b, flag),
        Criterion::Forwardable(rfc) => rfc.is_forwardable(&b.ip_addr),
        Criterion::Global(rfc) => rfc.is_global(&b.ip_addr),
    }
}

/// The bindings of `prev` that have the property (`wanted`), or those that
/// lack it, in their order.
pub fn select<'a>(prev: &Vec<Ip2NetworkInterface<'a>>, test: &Criterion, wanted: bool) -> (r: Vec<
    Ip2NetworkInterface<'a>,
>)
    ensures
        binding_views(r@) == binding_views(prev@).filter(selector(test@, wanted)),
{
    let mut out: Vec<Ip2NetworkInterface<'a>> = Vec::new();
    let mut i: usize = 0;
    let ghost views = binding_views(prev@);
    let ghost pred = selector(test@, wanted);
    proof {
        reveal(Seq::filter);
    }
    while i < prev.len()
        invariant
            i <= prev@.len(),
            views == binding_views(prev@),
            pred == selector(test@, wanted),
            binding_views(out@) == views.take(i as int).filter(pred),
        decreases prev@.len() - i,
    {
        let b = prev[i];
        proof {
            assert(views.take(i + 1) =~= views.take(i as int).push(b@));
            lemma_filter_push(views.take(i as int), b@, pred);
        }
        if check(test, &b) == wanted {
            out.push(b);
        }
        i += 1;
    }
    assert(views.take(prev@.len() as int) =~= views);
    out
}

/// One binding for each address of each interface, in the order of the
/// interfaces and, inside an interface, of its addresses.
pub fn all_interfaces<'a>(interfaces: &'a Vec<NetworkInterface>) -> (r: Vec<Ip2NetworkInterface<'a>>)
    ensures
        binding_views(r@) == all_bindings(interface_views(interfaces@)),
{
    let mut ret: Vec<Ip2NetworkInterface<'a>> = Vec::new();
    let ghost views = interface_views(interfaces@);
    let mut i: usize = 0;
    while i < interfaces.len()
        invariant
            i <= interfaces@.len(),
            views == interface_views(interfaces@),
            binding_views(ret@) == all_bindings(views.take(i as int)),
        decreases interfaces@.len() - i,
    {
        let interface = &interfaces[i];
        let ghost done = all_bindings(views.take(i as int));
        let mut k: usize = 0;
        while k < interface.ips.len()
            invariant
                k <= interface.ips@.len(),
                binding_views(ret@) == done + bindings_of(interface@).take(k as int),
            decreases interface.ips@.len() - k,
        {
            let b = Ip2NetworkInterface { ip_addr: interface.ips[k], interface: Some(interface) };
            let ghost before = binding_views(ret@);
            ret.push(b);
            proof {
                assert(before.push(b@) =~= done + bindings_of(interface@).take(k + 1));
            }
            k += 1;
        }
        proof {
            assert(views.take(i + 1).drop_last() =~= views.take(i as int));
        }
        i += 1;
    }
    assert(views.take(interfaces@.len() as int) =~= views);
    ret
}

/// The bindings whose interface has the given name.
pub fn rule_filter_name<'a>(iter: Vec<Ip2NetworkInterface<'a>>, name: &String) -> (r: Vec<
    Ip2NetworkInterface<'a>,
>)
    ensures
        binding_views(r@) == keep(binding_views(iter@), CriterionView::Name(name@)),
{
    select(&iter, &Criterion::Name(name), true)
}

/// Applies a filter to the bindings that reach it.
pub fn apply_filter<'a>(prev: Vec<Ip2NetworkInterface<'a>>, filter: &Filter, rfc: &WithRfc6890) -> (r:
    Result<Vec<Ip2NetworkInterface<'a>>, IfTError>)
    ensures
        bindings_result(r) == filter_spec(filter@, binding_views(prev@), rfc@),
{
    match filter {
        Filter::IPv4 => Ok(select(&prev, &Criterion::IPv4, true)),
        Filter::IPv6 => Ok(select(&prev, &Criterion::IPv6, true)),
        Filter::Name(name) => Ok(rule_filter_name(prev, name)),
        Filter::Flags(text) => match IfTFlag::from_text(text.as_str()) {
            Ok(flag) => Ok(select(&prev, &Criterion::Flag(flag), true)),
            Err(e) => Err(e),
        },
        Filter::Forwardable => Ok(select(&prev, &Criterion::Forwardable(rfc), true)),
        Filter::Global => Ok(select(&prev, &Criterion::Global(rfc), true)),
        Filter::First => {
            if prev.len() == 0 {
                Ok(prev)
            } else {
                let mut out: Vec<Ip2NetworkInterface<'a>> = Vec::new();
                out.push(prev[0]);
                assert(binding_views(out@) =~= seq![binding_views(prev@).first()]);
                Ok(out)
            }
        },
        Filter::Last => {
            if prev.len() == 0 {
                Ok(prev)
            } else {
                let mut out: Vec<Ip2NetworkInterface<'a>> = Vec::new();
                out.push(prev[prev.len() - 1]);
                assert(binding_views(out@) =~= seq![binding_views(prev@).last()]);
                Ok(out)
            }
        },
    }
}

/// Sorts the bindings by the given attribute. The only attribute there is,
/// `default`, brings the bindings of the default route's interface to the
/// front and keeps the order otherwise.
pub fn rule_sort_by_attribute<'a>(
    prev: Vec<Ip2NetworkInterface<'a>>,
    attribute: &String,
    default_route: &Result<String, RouteError>,
) -> (r: Result<Vec<Ip2NetworkInterface<'a>>, IfTError>)
    ensures
        bindings_result(r) == sort_spec(
            SortView::By(attribute@),
            binding_views(prev@),
            route_view(*default_route),
        ),
{
    match default_route {
        Err(RouteError::Io(m)) => Err(IfTError::Io(m.clone())),
        Err(RouteError::Utf8(m)) => Err(IfTError::Utf8(m.clone())),
        Ok(default_interface) => {
            if *attribute == "default".to_owned() {
                let mut front = select(&prev, &Criterion::Name(default_interface), true);
                let mut back = select(&prev, &Criterion::Name(default_interface), false);
                let ghost first = binding_views(front@);
                let ghost second = binding_views(back@);
                front.append(&mut back);
                assert(binding_views(front@) =~= first + second);
                Ok(front)
            } else {
                Err(IfTError::IfTArgumentError(attribute.clone()))
            }
        },
    }
}

/// Applies a sort to the bindings that reach it.
pub fn apply_sort<'a>(
    prev: Vec<Ip2NetworkInterface<'a>>,
    sort: &Sort,
    default_route: &Result<String, RouteError>,
) -> (r: Result<Vec<Ip2NetworkInterface<'a>>, IfTError>)
    ensures
        bindings_result(r) == sort_spec(sort@, binding_views(prev@), route_view(*default_route)),
{
    match sort {
        Sort::By(attribute) => rule_sort_by_attribute(prev, attribute, default_route),
    }
}

/// Applies a stage to the bindings that reach it.
pub fn apply_stage<'a>(
    prev: Vec<Ip2NetworkInterface<'a>>,
    stage: &Stage,
    rfc: &WithRfc6890,
    default_route: &Result<String, RouteError>,
) -> (r: Result<Vec<Ip2NetworkInterface<'a>>, IfTError>)
    ensures
        bindings_result(r) == stage_spec(
            stage@,
            binding_views(prev@),
            rfc@,
            route_view(*default_route),
        ),
{
    match stage {
        Stage::Filter(filter) => apply_filter(prev, filter, rfc),
        Stage::Sort(sort) => apply_sort(prev, sort, default_route),
    }
}

/// Applies the stages one after the other, first to last, and stops at the
/// first error.
pub fn run<'a>(
    stages: &Vec<Stage>,
    input: Vec<Ip2NetworkInterface<'a>>,
    rfc: &WithRfc6890,
    default_route: &Result<String, RouteError>,
) -> (r: Result<Vec<Ip2NetworkInterface<'a>>, IfTError>)
    ensures
        bindings_result(r) == run_stages(
            stage_views(stages@),
            binding_views(input@),
            rfc@,
            route_view(*default_route),
        ),
{
    let ghost all = stage_views(stages@);
    let ghost start = binding_views(input@);
    let ghost route = route_view(*default_route);
    let mut current = input;
    let mut i: usize = 0;
    assert(all.skip(0) =~= all);
    while i < stages.len()
        invariant
            i <= stages@.len(),
            all == stage_views(stages@),
            start == binding_views(input@),
            route == route_view(*default_route),
            run_stages(all, start, rfc@, route) == run_stages(
                all.skip(i as int),
                binding_views(current@),
                rfc@,
                route,
            ),
        decreases stages@.len() - i,
    {
        proof {
            assert(all.skip(i as int).drop_first() =~= all.skip(i + 1));
        }
        match apply_stage(current, &stages[i], rfc, default_route) {
            Ok(next) => {
                current = next;
            },
            Err(e) => {
                return Err(e);
            },
        }
        i += 1;
    }
    Ok(current)
}

/// The stages that a producer stands for.
pub fn expand(producer: &Producer) -> (r: Vec<Stage>)
    ensures
        stage_views(r@) == expansion(producer@),
{
    let mut stages: Vec<Stage> = Vec::new();
    match producer {
        Producer::GetAllInterfaces => {},
        Producer::GetInterface(name) => {
            stages.push(Stage::Filter(Filter::Name(name.clone())));
        },
        Producer::GetPrivateInterfaces => {
            stages.push(Stage::Filter(Filter::Flags("up".to_owned())));
            stages.push(Stage::Filter(Filter::Forwardable));
            stages.push(Stage::Sort(Sort::By("default".to_owned())));
        },
    }
    stages
}

/// The addresses of the bindings, in order.
fn ips(bindings: &Vec<Ip2NetworkInterface>) -> (r: Vec<IpAddress>)
    ensures
        r@ == addresses(binding_views(bindings@)),
{
    let mut out: Vec<IpAddress> = Vec::new();
    let mut i: usize = 0;
    while i < bindings.len()
        invariant
            i <= bindings@.len(),
            out@ == addresses(binding_views(bindings@)).take(i as int),
        decreases bindings@.len() - i,
    {
        out.push(bindings[i].ip_addr);
        i += 1;
    }
    out
}

/// Evaluates a parsed template on the given interfaces.
pub fn eval_pipeline(
    pipeline: &Pipeline,
    interfaces: &Vec<NetworkInterface>,
    rfc: &WithRfc6890,
    default_route: &Result<String, RouteError>,
) -> (r: Result<Vec<IpAddress>, IfTError>)
    ensures
        addresses_result(r) == pipeline_spec(
            pipeline@,
            interface_views(interfaces@),
            rfc@,
            route_view(*default_route),
        ),
{
    let sugar = expand(&pipeline.producer);
    let produced = all_interfaces(interfaces);
    proof {
        lemma_run_stages_concat(
            expansion(pipeline@.producer),
            pipeline@.stages,
            all_bindings(interface_views(interfaces@)),
            rfc@,
            route_view(*default_route),
        );
    }
    match run(&sugar, produced, rfc, default_route) {
        Ok(base) => match run(&pipeline.stages, base, rfc, default_route) {
            Ok(result) => Ok(ips(&result)),
            Err(e) => Err(e),
        },
        Err(e) => Err(e),
    }
}

/// Evaluates an interface template.
///
/// `interfaces` are the host's interfaces as enumerated; `default_route` is
/// the name of the interface that holds the default route, or the reason why
/// it could not be had. The result is all or nothing: the addresses that the
/// template selects, in pipeline order, or the first error. A template that
/// does not parse is an error before anything is evaluated; a flag other
/// than `up` and `down`, a sort attribute other than `default` and a failed
/// lookup of the default route are errors of the stage that meets them.
pub fn eval(
    s: &str,
    interfaces: &Vec<NetworkInterface>,
    default_route: &Result<String, RouteError>,
) -> (r: Result<Vec<IpAddress>, IfTError>)
    ensures
        addresses_result(r) == eval_spec(
            s@,
            interface_views(interfaces@),
            route_view(*default_route),
        ),
{
    match IfTParser::template(s) {
        Ok(pipeline) => {
            let rfc = WithRfc6890::create();
            eval_pipeline(&pipeline, interfaces, &rfc, default_route)
        },
        Err(e) => Err(IfTError::Syntax(e)),
    }
}

/// Just like [`eval`], for a template that evaluates without error: the
/// first address, or `None` where there is none.
pub fn evals(
    s: &str,
    interfaces: &Vec<NetworkInterface>,
    default_route: &Result<String, RouteError>,
) -> (r: Option<IpAddress>)
    requires
        eval_spec(s@, interface_views(interfaces@), route_view(*default_route)) is Ok,
    ensures
        r == match eval_spec(s@, interface_views(interfaces@), route_view(*default_route)) {
            Ok(ips) => if ips.len() > 0 {
                Some(ips[0])
            } else {
                None
            },
            Err(_) => None,
        },
{
    match eval(s, interfaces, default_route) {
        Ok(ips) => if ips.len() > 0 {
            Some(ips[0])
        } else {
            None
        },
        Err(_) => None,
    }
}

/// Whether the pipeline looks at the default route: it does where it sorts,
/// and where its producer stands for stages that sort.
pub open spec fn needs_route(pipeline: PipelineView) -> bool {
    pipeline.producer is GetPrivateInterfaces || exists|k: int|
        0 <= k < pipeline.stages.len() && #[trigger] pipeline.stages[k] is Sort
}

/// Whether the pipeline looks at the default route, so that a caller can
/// leave the lookup out where it is not needed.
pub fn uses_default_route(pipeline: &Pipeline) -> (r: bool)
    ensures
        r == needs_route(pipeline@),
{
    match pipeline.producer {
        Producer::GetPrivateInterfaces => {
            return true;
        },
        _ => {},
    }
    let mut i: usize = 0;
    while i < pipeline.stages.len()
        invariant
            i <= pipeline.stages@.len(),
            !(pipeline@.producer is GetPrivateInterfaces),
            forall|k: int| 0 <= k < i ==> !(#[trigger] pipeline@.stages[k] is Sort),
        decreases pipeline.stages@.len() - i,
    {
        match pipeline.stages[i] {
            Stage::Sort(_) => {
                assert(pipeline@.stages[i as int] is Sort);
                return true;
            },
            Stage::Filter(_) => {},
        }
        i += 1;
    }
    false
}

} // verus!
