use ift::address::IpAddress;
use ift::grammar::{Expected, Filter, IfTParser, Sort, Stage, SyntaxError};
use ift::pipeline::{
    all_interfaces, apply_filter, apply_sort, apply_stage, eval_pipeline, filter_by_flag,
    filter_by_name, rule_sort_by_attribute, uses_default_route, IfTFlag, Ip2NetworkInterface,
    NetworkInterface, RouteError,
};
use ift::rfc::WithRfc6890;
use ift::{eval, evals, IfTError};

fn interface(name: &str, up: bool, ips: Vec<IpAddress>) -> NetworkInterface {
    NetworkInterface { name: name.to_string(), up, ips }
}

fn loopback() -> IpAddress {
    IpAddress::v4(127, 0, 0, 1)
}

fn loopback6() -> IpAddress {
    IpAddress::v6(0, 0, 0, 0, 0, 0, 0, 1)
}

fn private() -> IpAddress {
    IpAddress::v4(192, 168, 1, 100)
}

fn link_local6() -> IpAddress {
    IpAddress::v6(0xfe80, 0, 0, 0, 0, 0, 0, 0x1234)
}

fn public() -> IpAddress {
    IpAddress::v4(8, 8, 4, 4)
}

fn docker() -> IpAddress {
    IpAddress::v4(172, 17, 0, 1)
}

/// A host behind a router: loopback, an ethernet interface with a private
/// address, a bridge that is down and a tunnel without addresses.
fn host() -> Vec<NetworkInterface> {
    vec![
        interface("lo0", true, vec![loopback(), loopback6()]),
        interface("en0", true, vec![link_local6(), private()]),
        interface("docker0", false, vec![docker()]),
        interface("utun0", true, vec![]),
    ]
}

fn route(name: &str) -> Result<String, RouteError> {
    Ok(name.to_string())
}

fn unused_route() -> Result<String, RouteError> {
    Err(RouteError::Io("the default route was not looked up".to_string()))
}

#[test]
fn integration_test_all() {
    let host = host();
    let route = route("en0");
    assert_eq!(true, evals("GetAllInterfaces | FilterForwardable", &host, &route).is_some());
    assert_eq!(false, evals("GetAllInterfaces | FilterGlobal", &host, &route).is_some()); // assuming behind router
    assert_eq!(
        true,
        evals("GetAllInterfaces | FilterIPv4 | SortBy \"default\" | FilterFirst", &host, &route).is_some()
    );
    assert_eq!(false, eval("GetAllInterfaces | FilterForwardable", &host, &route).unwrap().is_empty());
    assert_eq!(true, eval("GetAllInterfaces | FilterGlobal", &host, &route).unwrap().is_empty());
    assert_eq!(
        false,
        eval("GetAllInterfaces | FilterIPv4 | SortBy \"default\" | FilterFirst", &host, &route)
            .unwrap()
            .is_empty()
    );
}

#[test]
fn it_fails() {
    eval("adoe", &host(), &unused_route()).expect_err("should fail");
}

#[test]
fn get_interface_ip() {
    // The producer's keyword is `GetInterface`; `IP` after it is no
    // argument, so nothing is selected, and the caller is told why.
    let outcome = eval("GetInterfaceIP \"eth30\"", &host(), &unused_route());
    assert!(outcome.clone().unwrap_or_default().is_empty());
    assert_eq!(
        outcome,
        Err(IfTError::Syntax(SyntaxError {
            position: 12,
            unmatched: "IP \"eth30\"".to_string(),
            expected: Expected::OpeningQuote,
        }))
    );
    assert!(eval("GetInterface \"eth30\"", &host(), &unused_route()).unwrap().is_empty())
}

#[test]
fn get_interface_ip_and_filter() {
    let eval_str = "GetInterface \"lo0\" | FilterIPv4";
    let expected: IpAddress = loopback();
    assert_eq!(eval(eval_str, &host(), &unused_route()).unwrap().into_iter().next().unwrap(), expected)
}

#[test]
fn loopback_scenario() {
    let lo = vec![interface("lo0", true, vec![loopback(), loopback6()])];
    assert_eq!(eval("GetInterface \"lo0\" | FilterIPv4", &lo, &unused_route()), Ok(vec![loopback()]));
    assert_eq!(
        eval("GetInterface \"lo0\" | FilterIPv6 | FilterFirst", &lo, &unused_route()),
        Ok(vec![loopback6()])
    );
}

#[test]
fn get_all_interfaces_is_the_cross_product_in_order() {
    assert_eq!(
        eval("GetAllInterfaces", &host(), &unused_route()),
        Ok(vec![loopback(), loopback6(), link_local6(), private(), docker()])
    );
    assert_eq!(eval("GetAllInterfaces", &vec![], &unused_route()), Ok(vec![]));
    let host = host();
    let bindings = all_interfaces(&host);
    assert_eq!(5, bindings.len());
    assert_eq!("lo0", bindings[1].interface.unwrap().name);
    assert_eq!(loopback6(), bindings[1].ip_addr);
    assert_eq!("en0", bindings[2].interface.unwrap().name);
    assert_eq!("docker0", bindings[4].interface.unwrap().name);
}

#[test]
fn get_interface_is_get_all_filtered_by_name() {
    for name in ["lo0", "en0", "docker0", "utun0", "", "EN0", "en0 ", "en"] {
        let short = format!("GetInterface \"{}\"", name);
        let long = format!("GetAllInterfaces | FilterName \"{}\"", name);
        assert_eq!(
            eval(&short, &host(), &unused_route()),
            eval(&long, &host(), &unused_route())
        );
        assert!(eval(&short, &host(), &unused_route()).is_ok());
    }
    assert_eq!(eval("GetInterface \"en0\"", &host(), &unused_route()), Ok(vec![link_local6(), private()]));
    assert_eq!(eval("GetInterface \"EN0\"", &host(), &unused_route()), Ok(vec![]));
}

#[test]
fn get_private_interfaces_is_its_expansion() {
    let long = "GetAllInterfaces | FilterFlags \"up\" | FilterForwardable | SortBy \"default\"";
    for default in ["en0", "lo0", "docker0", "none"] {
        assert_eq!(
            eval("GetPrivateInterfaces", &host(), &route(default)),
            eval(long, &host(), &route(default))
        );
    }
    assert_eq!(eval("GetPrivateInterfaces", &host(), &route("en0")), Ok(vec![private()]));
    let failed = Err(RouteError::Utf8("invalid utf-8".to_string()));
    assert_eq!(eval("GetPrivateInterfaces", &host(), &failed), eval(long, &host(), &failed));
    assert_eq!(
        eval("GetPrivateInterfaces", &host(), &failed),
        Err(IfTError::Utf8("invalid utf-8".to_string()))
    );
    let two = vec![
        interface("a", true, vec![IpAddress::v4(10, 0, 0, 1), loopback()]),
        interface("b", true, vec![IpAddress::v4(10, 0, 0, 2)]),
        interface("c", false, vec![IpAddress::v4(10, 0, 0, 3)]),
    ];
    assert_eq!(
        eval("GetPrivateInterfaces", &two, &route("b")),
        Ok(vec![IpAddress::v4(10, 0, 0, 2), IpAddress::v4(10, 0, 0, 1)])
    );
}

#[test]
fn filtering_by_version_twice_is_filtering_once() {
    for version in ["FilterIPv4", "FilterIPv6"] {
        let once = format!("GetAllInterfaces | {}", version);
        let twice = format!("GetAllInterfaces | {} | {}", version, version);
        assert_eq!(eval(&once, &host(), &unused_route()), eval(&twice, &host(), &unused_route()));
    }
    assert_eq!(
        eval("GetAllInterfaces | FilterIPv4 | FilterIPv4", &host(), &unused_route()),
        Ok(vec![loopback(), private(), docker()])
    );
    assert_eq!(
        eval("GetAllInterfaces | FilterIPv6 | FilterIPv6", &host(), &unused_route()),
        Ok(vec![loopback6(), link_local6()])
    );
}

#[test]
fn filtering_by_both_versions_leaves_nothing() {
    assert_eq!(eval("GetAllInterfaces | FilterIPv4 | FilterIPv6", &host(), &unused_route()), Ok(vec![]));
    assert_eq!(eval("GetAllInterfaces | FilterIPv6 | FilterIPv4", &host(), &unused_route()), Ok(vec![]));
    assert_eq!(None, evals("GetAllInterfaces | FilterIPv4 | FilterIPv6", &host(), &unused_route()));
    assert_eq!(Some(loopback()), evals("GetAllInterfaces", &host(), &unused_route()));
}

#[test]
fn filter_flags_up_and_down() {
    assert_eq!(
        eval("GetAllInterfaces | FilterFlags \"up\"", &host(), &unused_route()),
        Ok(vec![loopback(), loopback6(), link_local6(), private()])
    );
    assert_eq!(
        eval("GetAllInterfaces | FilterFlags \"down\"", &host(), &unused_route()),
        Ok(vec![docker()])
    );
}

#[test]
fn unknown_flag_is_an_argument_error() {
    for flag in ["sideways", "UP", "", " up", "upp"] {
        let template = format!("GetAllInterfaces | FilterFlags \"{}\"", flag);
        assert_eq!(
            eval(&template, &host(), &unused_route()),
            Err(IfTError::IfTFlagError(flag.to_string()))
        );
    }
    assert_eq!(
        eval("GetAllInterfaces | FilterIPv4 | FilterIPv6 | FilterFlags \"x\" | FilterFirst", &vec![], &route("a")),
        Err(IfTError::IfTFlagError("x".to_string()))
    );
    assert_eq!(IfTFlag::from_text("up"), Ok(IfTFlag::UP));
    assert_eq!(IfTFlag::from_text("down"), Ok(IfTFlag::DOWN));
    assert_eq!(IfTFlag::from_text("Down"), Err(IfTError::IfTFlagError("Down".to_string())));
}

#[test]
fn unknown_sort_attribute_is_an_argument_error() {
    for attribute in ["name", "Default", "", "default "] {
        let template = format!("GetAllInterfaces | SortBy \"{}\"", attribute);
        assert_eq!(
            eval(&template, &host(), &route("en0")),
            Err(IfTError::IfTArgumentError(attribute.to_string()))
        );
    }
}

#[test]
fn the_first_failing_stage_decides() {
    assert_eq!(
        eval("GetAllInterfaces | FilterFlags \"x\" | SortBy \"y\"", &host(), &route("en0")),
        Err(IfTError::IfTFlagError("x".to_string()))
    );
    assert_eq!(
        eval("GetAllInterfaces | SortBy \"y\" | FilterFlags \"x\"", &host(), &route("en0")),
        Err(IfTError::IfTArgumentError("y".to_string()))
    );
    assert_eq!(
        eval("GetAllInterfaces | SortBy \"y\" | FilterFlags \"x\" |", &host(), &route("en0")),
        Err(IfTError::Syntax(SyntaxError { position: 49, unmatched: String::new(), expected: Expected::Stage }))
    );
}

#[test]
fn a_failed_route_lookup_fails_the_sort_only() {
    let io = Err(RouteError::Io("no such file or directory".to_string()));
    let utf8 = Err(RouteError::Utf8("invalid utf-8 sequence".to_string()));
    assert_eq!(
        eval("GetAllInterfaces | SortBy \"default\"", &host(), &io),
        Err(IfTError::Io("no such file or directory".to_string()))
    );
    assert_eq!(
        eval("GetAllInterfaces | SortBy \"default\"", &host(), &utf8),
        Err(IfTError::Utf8("invalid utf-8 sequence".to_string()))
    );
    // the lookup comes before the attribute is looked at
    assert_eq!(
        eval("GetAllInterfaces | SortBy \"name\"", &host(), &io),
        Err(IfTError::Io("no such file or directory".to_string()))
    );
    assert_eq!(eval("GetAllInterfaces | FilterIPv4 | FilterLast", &host(), &io), Ok(vec![docker()]));
}

#[test]
fn filter_forwardable_and_global() {
    let mixed = vec![interface("x", true, vec![loopback(), private(), public(), link_local6(), IpAddress::v4(192, 88, 99, 1)])];
    assert_eq!(
        eval("GetAllInterfaces | FilterForwardable", &mixed, &unused_route()),
        Ok(vec![private(), public(), IpAddress::v4(192, 88, 99, 1)])
    );
    assert_eq!(
        eval("GetAllInterfaces | FilterGlobal", &mixed, &unused_route()),
        Ok(vec![public(), IpAddress::v4(192, 88, 99, 1)])
    );
}

#[test]
fn first_and_last() {
    assert_eq!(eval("GetAllInterfaces | FilterFirst", &host(), &unused_route()), Ok(vec![loopback()]));
    assert_eq!(eval("GetAllInterfaces | FilterLast", &host(), &unused_route()), Ok(vec![docker()]));
    assert_eq!(
        eval("GetAllInterfaces | FilterLast | FilterFirst | FilterLast", &host(), &unused_route()),
        Ok(vec![docker()])
    );
    let one = vec![interface("x", true, vec![public()])];
    assert_eq!(eval("GetAllInterfaces | FilterFirst", &one, &unused_route()), Ok(vec![public()]));
    assert_eq!(eval("GetAllInterfaces | FilterLast", &one, &unused_route()), Ok(vec![public()]));
}

#[test]
fn first_and_last_of_nothing_is_nothing() {
    assert_eq!(eval("GetAllInterfaces | FilterFirst", &vec![], &unused_route()), Ok(vec![]));
    assert_eq!(eval("GetAllInterfaces | FilterLast", &vec![], &unused_route()), Ok(vec![]));
    assert_eq!(eval("GetInterface \"nope\" | FilterFirst", &host(), &unused_route()), Ok(vec![]));
    assert_eq!(eval("GetInterface \"nope\" | FilterLast", &host(), &unused_route()), Ok(vec![]));
    let rfc = WithRfc6890::create();
    assert_eq!(0, apply_filter(vec![], &Filter::First, &rfc).unwrap().len());
    assert_eq!(0, apply_filter(vec![], &Filter::Last, &rfc).unwrap().len());
}

#[test]
fn sort_by_default_brings_the_default_interface_to_the_front() {
    assert_eq!(
        eval("GetAllInterfaces | SortBy \"default\"", &host(), &route("en0")),
        Ok(vec![link_local6(), private(), loopback(), loopback6(), docker()])
    );
    assert_eq!(
        eval("GetAllInterfaces | SortBy \"default\"", &host(), &route("docker0")),
        Ok(vec![docker(), loopback(), loopback6(), link_local6(), private()])
    );
    assert_eq!(
        eval("GetAllInterfaces | SortBy \"default\"", &host(), &route("lo0")),
        Ok(vec![loopback(), loopback6(), link_local6(), private(), docker()])
    );
}

#[test]
fn sort_by_default_keeps_the_order_of_the_others() {
    for default in ["", "none", "utun0", "EN0"] {
        assert_eq!(
            eval("GetAllInterfaces | SortBy \"default\"", &host(), &route(default)),
            eval("GetAllInterfaces", &host(), &unused_route())
        );
    }
    let twice = vec![
        interface("a", true, vec![IpAddress::V4(1)]),
        interface("d", true, vec![IpAddress::V4(2)]),
        interface("b", true, vec![IpAddress::V4(3)]),
        interface("d", false, vec![IpAddress::V4(4), IpAddress::V4(5)]),
        interface("c", true, vec![IpAddress::V4(6)]),
    ];
    assert_eq!(
        eval("GetAllInterfaces | SortBy \"default\"", &twice, &route("d")),
        Ok(vec![IpAddress::V4(2), IpAddress::V4(4), IpAddress::V4(5), IpAddress::V4(1), IpAddress::V4(3), IpAddress::V4(6)])
    );
    assert_eq!(
        eval("GetAllInterfaces | SortBy \"default\" | SortBy \"default\"", &twice, &route("d")),
        eval("GetAllInterfaces | SortBy \"default\"", &twice, &route("d"))
    );
}

#[test]
fn bindings_without_an_interface() {
    let lo = interface("lo0", true, vec![loopback()]);
    let owned = Ip2NetworkInterface { ip_addr: loopback(), interface: Some(&lo) };
    let stray4 = Ip2NetworkInterface { ip_addr: private(), interface: None };
    let stray6 = Ip2NetworkInterface { ip_addr: link_local6(), interface: None };
    let rfc = WithRfc6890::create();
    let all = vec![stray4, owned, stray6];
    let ips = |bindings: Vec<Ip2NetworkInterface>| -> Vec<IpAddress> {
        bindings.iter().map(|b| b.ip_addr).collect()
    };
    // still filterable by address
    assert_eq!(vec![private(), loopback()], ips(apply_filter(all.clone(), &Filter::IPv4, &rfc).unwrap()));
    assert_eq!(vec![link_local6()], ips(apply_filter(all.clone(), &Filter::IPv6, &rfc).unwrap()));
    assert_eq!(vec![private()], ips(apply_filter(all.clone(), &Filter::Forwardable, &rfc).unwrap()));
    // never matched by name or flag
    assert_eq!(vec![loopback()], ips(apply_filter(all.clone(), &Filter::Name("lo0".to_string()), &rfc).unwrap()));
    assert!(apply_filter(all.clone(), &Filter::Name(String::new()), &rfc).unwrap().is_empty());
    assert_eq!(vec![loopback()], ips(apply_filter(all.clone(), &Filter::Flags("up".to_string()), &rfc).unwrap()));
    assert!(apply_filter(all.clone(), &Filter::Flags("down".to_string()), &rfc).unwrap().is_empty());
    assert!(!filter_by_name(&stray4, &String::new()));
    assert!(!filter_by_flag(&stray4, &IfTFlag::UP) && !filter_by_flag(&stray4, &IfTFlag::DOWN));
    assert!(filter_by_name(&owned, &"lo0".to_string()) && !filter_by_name(&owned, &"lo".to_string()));
    assert!(filter_by_flag(&owned, &IfTFlag::UP) && !filter_by_flag(&owned, &IfTFlag::DOWN));
    // sorted behind the default interface's, in their order
    assert_eq!(
        vec![loopback(), private(), link_local6()],
        ips(rule_sort_by_attribute(all.clone(), &"default".to_string(), &route("lo0")).unwrap())
    );
    assert_eq!(
        vec![loopback(), private(), link_local6()],
        ips(apply_sort(all.clone(), &Sort::By("default".to_string()), &route("lo0")).unwrap())
    );
    assert_eq!(
        vec![link_local6()],
        ips(apply_stage(all, &Stage::Filter(Filter::Last), &rfc, &unused_route()).unwrap())
    );
}

#[test]
fn a_parsed_pipeline_is_evaluated_against_any_table() {
    let pipeline = IfTParser::template("GetAllInterfaces | FilterForwardable").unwrap();
    let nothing_special = WithRfc6890 { entries: vec![] };
    assert_eq!(
        eval_pipeline(&pipeline, &host(), &nothing_special, &unused_route()),
        Ok(vec![loopback(), loopback6(), link_local6(), private(), docker()])
    );
    assert_eq!(
        eval_pipeline(&pipeline, &host(), &WithRfc6890::create(), &unused_route()),
        Ok(vec![private(), docker()])
    );
}

#[test]
fn a_name_may_hold_a_pipe() {
    let odd = vec![interface("a|b", true, vec![public()]), interface("a", true, vec![private()])];
    assert_eq!(eval("GetInterface \"a|b\" | FilterIPv4", &odd, &unused_route()), Ok(vec![public()]));
}

#[test]
fn only_sorting_pipelines_use_the_default_route() {
    for (template, used) in [
        ("GetAllInterfaces", false),
        ("GetInterface \"default\"", false),
        ("GetPrivateInterfaces", true),
        ("GetPrivateInterfaces | FilterFirst", true),
        ("GetAllInterfaces | FilterIPv4 | FilterFlags \"up\" | FilterLast", false),
        ("GetAllInterfaces | SortBy \"default\"", true),
        ("GetAllInterfaces | FilterIPv4 | SortBy \"name\" | FilterFirst", true),
        ("GetInterface \"en0\" | FilterGlobal | FilterForwardable | SortBy \"default\"", true),
    ] {
        let pipeline = IfTParser::template(template).unwrap();
        assert_eq!(used, uses_default_route(&pipeline), "{}", template);
        if !used {
            assert_eq!(
                eval(template, &host(), &route("en0")),
                eval(template, &host(), &Err(RouteError::Io("failed".to_string())))
            );
        }
    }
}
