use ift::address::AddressBlock;
use ift::rfc::{Rfc6890Entry, RfcEntry, WithRfc6890};
use ift::rfc_parser::{
    listing, parse_found, parse_matches, parse_table, parse_tables, RfcInfo, TableError,
};
use ift::rfc_parser::{escape_quotes, find_bool, parse_bool, remove_footnote, truth, Record};

fn record(rows: &[(&str, &str)]) -> Record {
    let mut record = Record::new();
    for (key, value) in rows {
        record.insert(key.to_string(), value.to_string());
    }
    record
}

#[test]
fn escape_quotes_puts_a_backslash_before_each_quote() {
    assert_eq!("", escape_quotes(""));
    assert_eq!("Private-Use", escape_quotes("Private-Use"));
    assert_eq!("\\\"This host on this network\\\"", escape_quotes("\"This host on this network\""));
    assert_eq!("\\\"", escape_quotes("\""));
    assert_eq!("\\\"\\\"\\\"", escape_quotes("\"\"\""));
    assert_eq!("a\\\\\"b", escape_quotes("a\\\"b"));
    assert_eq!("\u{e9}\\\"\u{4e16}", escape_quotes("\u{e9}\"\u{4e16}"));
    assert_eq!("It's", escape_quotes("It's"));
}

#[test]
fn remove_footnote_cuts_at_the_first_bracket_and_trims() {
    let r = record(&[
        ("Address Block", "10.0.0.0/8 [2]"),
        ("Forwardable", "True [1]"),
        ("RFC", "[RFC1918]"),
        ("Name", "  Private-Use \t"),
        ("Twice", "a [1] b [2]"),
        ("Inner", " a  b [x"),
        ("Closing", "a ] b"),
        ("Empty", ""),
    ]);
    assert_eq!("10.0.0.0/8", remove_footnote(&r, "Address Block"));
    assert_eq!("True", remove_footnote(&r, "Forwardable"));
    assert_eq!("", remove_footnote(&r, "RFC"));
    assert_eq!("Private-Use", remove_footnote(&r, "Name"));
    assert_eq!("a", remove_footnote(&r, "Twice"));
    assert_eq!("a  b", remove_footnote(&r, "Inner"));
    assert_eq!("a ] b", remove_footnote(&r, "Closing"));
    assert_eq!("", remove_footnote(&r, "Empty"));
}

#[test]
fn parse_bool_reads_true_false_and_not_applicable() {
    let r = record(&[
        ("Source", "True"),
        ("Destination", "False"),
        ("Forwardable", "True [1]"),
        ("Global", "N/A"),
        ("Reserved-by-Protocol", " FALSE [3]"),
        ("Lower", "true"),
        ("Mixed", "n/A [1]"),
    ]);
    assert_eq!(true, parse_bool(&r, "Source"));
    assert_eq!(false, parse_bool(&r, "Destination"));
    assert_eq!(true, parse_bool(&r, "Forwardable"));
    assert_eq!(false, parse_bool(&r, "Global"));
    assert_eq!(false, parse_bool(&r, "Reserved-by-Protocol"));
    assert_eq!(true, parse_bool(&r, "Lower"));
    assert_eq!(false, parse_bool(&r, "Mixed"));
}

#[test]
fn find_bool_tells_what_is_no_truth_value() {
    let r = record(&[("Source", "TRUE"), ("Global", "N/A [2]"), ("Name", "Loopback"), ("Yes", "yes"), ("Empty", ""), ("Spaced", "t rue")]);
    assert_eq!(Some(true), find_bool(&r, "Source"));
    assert_eq!(Some(false), find_bool(&r, "Global"));
    assert_eq!(None, find_bool(&r, "Name"));
    assert_eq!(None, find_bool(&r, "Yes"));
    assert_eq!(None, find_bool(&r, "Empty"));
    assert_eq!(None, find_bool(&r, "Spaced"));
    assert_eq!(None, find_bool(&r, "Missing"));
    assert_eq!(None, find_bool(&r, "source"));
}

#[test]
fn truth_takes_lower_case_only() {
    assert_eq!(Some(true), truth(&"true".to_string()));
    assert_eq!(Some(false), truth(&"false".to_string()));
    assert_eq!(Some(false), truth(&"n/a".to_string()));
    assert_eq!(None, truth(&"True".to_string()));
    assert_eq!(None, truth(&"N/A".to_string()));
    assert_eq!(None, truth(&"".to_string()));
}

#[test]
fn a_record_keeps_the_value_given_last() {
    let mut r = Record::new();
    assert_eq!(None, r.get("Name"));
    r.insert("Name".to_string(), "first".to_string());
    r.insert("RFC".to_string(), "[RFC1]".to_string());
    assert_eq!(Some(&"first".to_string()), r.get("Name"));
    r.insert("Name".to_string(), "second".to_string());
    assert_eq!(Some(&"second".to_string()), r.get("Name"));
    assert_eq!(Some(&"[RFC1]".to_string()), r.get("RFC"));
    assert_eq!(None, r.get("name"));
    assert_eq!(None, r.get(""));
}

fn entry_of(info: RfcInfo) -> Rfc6890Entry {
    match info.output {
        RfcEntry::Rfc6890(entry) => entry,
    }
}

#[test]
fn rfc_parser_test_parse_table() {
    let head = "                     +----------------------+----------------------+";
    let table = "                     | Address Block        | 100.64.0.0/10        |
                     | Name                 | Shared Address Space |
                     | RFC                  | [RFC6598]            |
                     | Allocation Date      | April 2012           |
                     | Termination Date     | N/A                  |
                     | Source               | True                 |
                     | Destination          | True                 |
                     | Forwardable          | True                 |
                     | Global               | False                |
                     | Reserved-by-Protocol | False                |";
    let RfcEntry::Rfc6890(r) = parse_table(head, table).unwrap().output;
    assert!(r.forwardable);
}

#[test]
fn ift_gen_test_parse_table() {
    let head = "                     +----------------------+----------------------+";
    let table = "                     | Address Block        | 100.64.0.0/10        |
                     | Name                 | Shared Address Space |
                     | RFC                  | [RFC6598]            |
                     | Allocation Date      | April 2012           |
                     | Termination Date     | N/A                  |
                     | Source               | True                 |
                     | Destination          | True                 |
                     | Forwardable          | True                 |
                     | Global               | False                |
                     | Reserved-by-Protocol | False                |";
    let r = entry_of(parse_table(head, table).unwrap());
    assert!(r.forwardable);
    assert_eq!(
        r,
        Rfc6890Entry {
            address_block: AddressBlock::v4(100, 64, 0, 0, 10).unwrap(),
            name: "Shared Address Space".to_string(),
            rfc: "[RFC6598]".to_string(),
            allocation_date: "April 2012".to_string(),
            termination_date: "N/A".to_string(),
            source: true,
            destination: true,
            forwardable: true,
            global: false,
            reserved_by_protocol: false,
        }
    );
}

fn two_tables() -> &'static str {
    "

              +----------------------+----------------------------+
              | Attribute            | Value                      |
              +----------------------+----------------------------+
              | Address Block        | 0.0.0.0/8                  |
              | Name                 | \"This host on this network\"|
              | RFC                  | [RFC1122], Section 3.2.1.3 |
              | Allocation Date      | September 1981             |
              | Termination Date     | N/A                        |
              | Source               | True                       |
              | Destination          | False                      |
              | Forwardable          | False                      |
              | Global               | False                      |
              | Reserved-by-Protocol | True                       |
              +----------------------+----------------------------+

                    +----------------------+---------------+
                    | Attribute            | Value         |
                    +----------------------+---------------+
                    | Address Block        | 10.0.0.0/8 [2]|
                    | Name                 | Private-Use   |
                    | RFC                  | [RFC1918]     |
                    | Allocation Date      | February 1996 |
                    | Termination Date     | N/A           |
                    | Source               | True          |
                    | Destination          | True          |
                    | Forwardable          | True [1]      |
                    | Global               | N/A           |
                    | Reserved-by-Protocol | False         |
                    +----------------------+---------------+

        "
}

#[test]
fn rfc_parser_test_parse_tables() {
    let tables = two_tables();
    let out = parse_tables(tables).unwrap();
    assert_eq!(2, out.len());
    let RfcEntry::Rfc6890(ref r) = out[1].output;
    assert_eq!(false, r.global);
}

#[test]
fn ift_gen_test_parse_tables() {
    let out = parse_tables(two_tables()).unwrap();
    assert_eq!(2, out.len());
    let r = entry_of(out[1].clone());
    assert_eq!(false, r.global);
    let table = WithRfc6890::create();
    assert_eq!(table.entries[0], entry_of(out[0].clone()));
    assert_eq!(table.entries[1], r);
}

#[test]
fn a_text_without_tables_has_no_entries() {
    assert_eq!(Ok(vec![]), parse_tables(""));
    assert_eq!(Ok(vec![]), parse_tables("The IPv4 Special-Purpose Address Registry\n+---+---+\n"));
}

fn head() -> &'static str {
    "  +----------------------+---------------+"
}

fn rows(changed: &[(&str, &str)], dropped: &str) -> String {
    let all = [
        ("Address Block", "10.0.0.0/8 [2]"),
        ("Name", "Private-Use"),
        ("RFC", "[RFC1918]"),
        ("Allocation Date", "February 1996"),
        ("Termination Date", "N/A"),
        ("Source", "True"),
        ("Destination", "True"),
        ("Forwardable", "True [1]"),
        ("Global", "N/A"),
        ("Reserved-by-Protocol", "False"),
    ];
    let mut text = String::new();
    for (key, value) in all {
        if key == dropped {
            continue;
        }
        let mut value = value;
        for (k, v) in changed {
            if *k == key {
                value = v;
            }
        }
        text.push_str(&format!("  | {:<20} | {:<14}|\n", key, value));
    }
    text.push_str("  ");
    text
}

#[test]
fn a_table_is_read_by_the_columns_of_its_border() {
    let r = entry_of(parse_table(head(), &rows(&[], "")).unwrap());
    assert_eq!(AddressBlock::v4(10, 0, 0, 0, 8).unwrap(), r.address_block);
    assert_eq!("Private-Use", r.name);
    assert_eq!("[RFC1918]", r.rfc);
    assert_eq!("February 1996", r.allocation_date);
    assert_eq!("N/A", r.termination_date);
    assert_eq!((true, true, true, false, false), (r.source, r.destination, r.forwardable, r.global, r.reserved_by_protocol));
    // the address block is read in any case of letters, with the address as written
    let v6 = entry_of(parse_table(head(), &rows(&[("Address Block", "FC00::1/7")], "")).unwrap());
    assert_eq!(AddressBlock::v6(0xfc00, 0, 0, 0, 0, 0, 0, 1, 7).unwrap(), v6.address_block);
    // the character before the closing line is not part of the value
    let cut = entry_of(parse_table(head(), &rows(&[("Name", "12345678901234")], "")).unwrap());
    assert_eq!("1234567890123", cut.name);
    // of an attribute given twice the last counts
    let twice = format!("{}\n  | {:<20} | {:<14}|", rows(&[], ""), "Name", "Again");
    assert_eq!("Again", entry_of(parse_table(head(), &twice).unwrap()).name);
}

#[test]
fn what_is_no_table_is_refused() {
    assert_eq!(Err(TableError::NotAscii), parse_table(head(), &rows(&[("Name", "Priv\u{e9}")], "")));
    assert_eq!(Err(TableError::NotAscii), parse_table("  +------\u{2014}+-----+", &rows(&[], "")));
    for border in ["", "   ", "+----+", "+----+----+----+", "++----+", "+----++", "+++"] {
        assert_eq!(Err(TableError::Border), parse_table(border, &rows(&[], "")), "{}", border);
    }
    assert_eq!(Err(TableError::Row), parse_table("+--+--+", &rows(&[], "")));
    assert_eq!(Err(TableError::Row), parse_table("+-+-+", &rows(&[], "")));
    assert_eq!(Err(TableError::Missing), parse_table("+-+-+", "|N|x|"));
    assert_eq!(Err(TableError::Row), parse_table(head(), &format!("{}x", rows(&[], ""))));
    assert_eq!(Err(TableError::Row), parse_table(head(), &rows(&[("Name", "123456789012345")], "")));
    for key in ["Address Block", "Name", "RFC", "Allocation Date", "Termination Date", "Source", "Destination", "Forwardable", "Global", "Reserved-by-Protocol"] {
        assert_eq!(Err(TableError::Missing), parse_table(head(), &rows(&[], key)), "{}", key);
    }
    assert_eq!(Err(TableError::Missing), parse_table(head(), ""));
    for block in ["10.0.0.0", "10.0.0.0/33", "10.0.0/8", "", "[1] 10.0.0.0/8", "fc00::/129", "private"] {
        assert_eq!(Err(TableError::AddressBlock), parse_table(head(), &rows(&[("Address Block", block)], "")), "{}", block);
    }
    for key in ["Source", "Destination", "Forwardable", "Global", "Reserved-by-Protocol"] {
        assert_eq!(Err(TableError::Truth), parse_table(head(), &rows(&[(key, "Yes")], "")), "{}", key);
    }
    // the first field that fails decides
    assert_eq!(Err(TableError::AddressBlock), parse_table(head(), &rows(&[("Address Block", "x"), ("Source", "x")], "Name")));
    assert_eq!(Err(TableError::Missing), parse_table(head(), &rows(&[("Source", "x")], "Name")));
    assert_eq!(Err(TableError::Truth), parse_table(head(), &rows(&[("Source", "x")], "Global")));
}

#[test]
fn what_was_found_is_read_group_by_group() {
    let full = vec![Some("ignored".to_string()), Some(head().to_string()), Some(rows(&[], ""))];
    assert_eq!("Private-Use", entry_of(parse_found(&full).unwrap()).name);
    assert_eq!(Err(TableError::Capture), parse_found(&vec![]));
    assert_eq!(Err(TableError::Capture), parse_found(&vec![None, Some(head().to_string())]));
    assert_eq!(Err(TableError::Capture), parse_found(&vec![None, None, Some(rows(&[], ""))]));
    assert_eq!(Err(TableError::Capture), parse_found(&vec![None, Some(head().to_string()), None]));
    assert_eq!(Err(TableError::Border), parse_found(&vec![None, Some(String::new()), Some(rows(&[], ""))]));
    assert_eq!(Ok(vec![]), parse_matches(&vec![]));
    let other = vec![None, Some(head().to_string()), Some(rows(&[("Name", "Other")], "")), None];
    let both = parse_matches(&vec![full.clone(), other.clone()]).unwrap();
    assert_eq!(2, both.len());
    assert_eq!("Private-Use", entry_of(both[0].clone()).name);
    assert_eq!("Other", entry_of(both[1].clone()).name);
    let bad = vec![None, Some(head().to_string()), Some(rows(&[], "RFC"))];
    assert_eq!(Err(TableError::Missing), parse_matches(&vec![full.clone(), bad.clone(), vec![]]));
    assert_eq!(Err(TableError::Capture), parse_matches(&vec![full, vec![], bad]));
}

#[test]
fn an_entry_as_source_code() {
    let table = WithRfc6890::create();
    assert_eq!(
        "\
Rfc6890Entry {
    address_block: \"0.0.0.0/8\".parse().unwrap(),
    name: \"\\\"This host on this network\".to_owned(),
    rfc: \"[RFC1122], Section 3.2.1.3\".to_owned(),
    allocation_date: \"September 1981\".to_owned(),
    termination_date: \"N/A\".to_owned(),
    source: true,
    destination: false,
    forwardable: false,
    global: false,
    reserved_by_protocol: true
}",
        table.entries[0].as_code()
    );
    assert_eq!(
        "\
Rfc6890Entry {
    address_block: \"64:ff9b::/96\".parse().unwrap(),
    name: \"IPv4-IPv6 Translat.\".to_owned(),
    rfc: \"[RFC6052]\".to_owned(),
    allocation_date: \"October 2010\".to_owned(),
    termination_date: \"N/A\".to_owned(),
    source: true,
    destination: true,
    forwardable: true,
    global: true,
    reserved_by_protocol: false
}",
        table.entries[18].as_code()
    );
}

#[test]
fn blocks_as_text() {
    assert_eq!(AddressBlock::v4(192, 0, 0, 0, 24), AddressBlock::parse("192.0.0.0/24"));
    assert_eq!(AddressBlock::v4(192, 168, 12, 34, 16), AddressBlock::parse("192.168.12.34/16"));
    assert_eq!(AddressBlock::v6(0xfc00, 0, 0, 0, 0, 0, 0, 0, 7), AddressBlock::parse("fc00::/7"));
    assert_eq!(AddressBlock::v6(0, 0, 0, 0, 0, 0xffff, 0, 0, 96), AddressBlock::parse("::ffff:0.0.0.0/96"));
    assert_eq!(None, AddressBlock::parse("192.0.0.0"));
    assert_eq!(None, AddressBlock::parse("192.0.0.0/33"));
    assert_eq!(None, AddressBlock::parse(" 192.0.0.0/24"));
    assert_eq!(None, AddressBlock::parse("FC00::/7x"));
    assert_eq!("192.0.0.0/24", AddressBlock::v4(192, 0, 0, 0, 24).unwrap().to_text());
    assert_eq!("10.1.2.3/8", AddressBlock::v4(10, 1, 2, 3, 8).unwrap().to_text());
    assert_eq!("2001:db8::/32", AddressBlock::v6(0x2001, 0xdb8, 0, 0, 0, 0, 0, 0, 32).unwrap().to_text());
    assert_eq!("::1/128", AddressBlock::v6(0, 0, 0, 0, 0, 0, 0, 1, 128).unwrap().to_text());
    let table = WithRfc6890::create();
    for entry in &table.entries {
        assert_eq!(Some(entry.address_block), AddressBlock::parse(&entry.address_block.to_text()));
    }
}

#[test]
fn entries_that_end_are_listed_as_comments() {
    let table = WithRfc6890::create();
    let lasting = &table.entries[1];
    assert_eq!(format!("{},", lasting.as_code()), listing(lasting));
    let orchid = &table.entries[25];
    assert_eq!("ORCHID", orchid.name);
    assert_eq!(format!("/*{},*/", orchid.as_code()), listing(orchid));
    assert!(listing(orchid).starts_with("/*Rfc6890Entry {\n    address_block: \"2001:10::/28\".parse().unwrap(),"));
}
