//! Reading the registries out of the text of RFC 6890, where each entry is
//! a table of attributes and values, and writing an entry as source code.
//!
//! ```text
//!   +----------------------+----------------------+
//!   | Attribute            | Value                |
//!   +----------------------+----------------------+
//!   | Address Block        | 100.64.0.0/10        |
//!   | Name                 | Shared Address Space |
//!   | Forwardable          | True [1]             |
//!   +----------------------+----------------------+
//! ```

use crate::address::{parsed_net, AddressBlock};
use crate::rfc::{entry_view, Rfc6890Entry, Rfc6890EntryView, RfcEntry};
use crate::text::{find, find_char, lemma_find_char, to_chars, trim_range, trimmed};
use vstd::prelude::*;
use vstd::utf8::is_ascii_chars;

verus! {

/// The text with a backslash before each double quote.
pub open spec fn escaped(s: Seq<char>) -> Seq<char>
    decreases s.len(),
{
    if s.len() == 0 {
        Seq::empty()
    } else if s.last() == '"' {
        escaped(s.drop_last()) + seq!['\\', '"']
    } else {
        escaped(s.drop_last()).push(s.last())
    }
}

/// A stretch without double quotes is escaped as it stands.
pub proof fn lemma_escaped_plain(s: Seq<char>, i: int, j: int)
    requires
        0 <= i <= j <= s.len(),
        forall|k: int| i <= k < j ==> #[trigger] s[k] != '"',
    ensures
        escaped(s.take(j)) == escaped(s.take(i)) + s.subrange(i, j),
    decreases j - i,
{
    if i == j {
        assert(s.subrange(i, j) =~= Seq::<char>::empty());
    } else {
        lemma_escaped_plain(s, i, j - 1);
        assert(s.take(j).drop_last() =~= s.take(j - 1));
        assert(s.subrange(i, j) =~= s.subrange(i, j - 1).push(s[j - 1]));
    }
}

/// Puts a backslash before each double quote, so that the text can stand
/// inside a string literal.
pub fn escape_quotes(s: &str) -> (r: String)
    ensures
        r@ == escaped(s@),
{
    let chars = to_chars(s);
    let mut out = String::new();
    let mut i: usize = 0;
    loop
        invariant
            chars@ == s@,
            i <= chars@.len(),
            out@ == escaped(s@.take(i as int)),
        decreases chars@.len() - i,
    {
        let j = find(&chars, '"', i);
        proof {
            lemma_find_char(s@, '"', i as int);
            lemma_escaped_plain(s@, i as int, j as int);
        }
        out.append(s.substring_char(i, j));
        if j >= chars.len() {
            assert(s@.take(j as int) =~= s@);
            return out;
        }
        proof {
            reveal_strlit("\\\"");
            assert(s@.take(j + 1).drop_last() =~= s@.take(j as int));
        }
        out.append("\\\"");
        i = j + 1;
    }
}

/// The attributes of one table with their values. An attribute that is
/// given twice has the value given last.
#[derive(Clone, Debug, PartialEq, Eq)]
pub struct Record {
    pub rows: Vec<(String, String)>,
}

/// The attributes that the rows give, each with its value.
pub open spec fn record_map(rows: Seq<(String, String)>) -> Map<Seq<char>, Seq<char>>
    decreases rows.len(),
{
    if rows.len() == 0 {
        Map::empty()
    } else {
        record_map(rows.drop_last()).insert(rows.last().0@, rows.last().1@)
    }
}

impl View for Record {
    type V = Map<Seq<char>, Seq<char>>;

    open spec fn view(&self) -> Map<Seq<char>, Seq<char>> {
        record_map(self.rows@)
    }
}

/// The value of an attribute is that of the last row that gives it.
pub proof fn lemma_record_last_row(rows: Seq<(String, String)>, key: Seq<char>, i: int)
    requires
        0 <= i <= rows.len(),
        forall|j: int| i <= j < rows.len() ==> (#[trigger] rows[j]).0@ != key,
    ensures
        record_map(rows).contains_key(key) == record_map(rows.take(i)).contains_key(key),
        record_map(rows).contains_key(key) ==> record_map(rows)[key] == record_map(
            rows.take(i),
        )[key],
        i > 0 && rows[i - 1].0@ == key ==> record_map(rows).contains_key(key) && record_map(
            rows,
        )[key] == rows[i - 1].1@,
        i == 0 ==> !record_map(rows).contains_key(key),
    decreases rows.len() - i,
{
    if i == rows.len() {
        assert(rows.take(i) =~= rows);
    } else {
        let shorter = rows.drop_last();
        assert forall|j: int| i <= j < shorter.len() implies (#[trigger] shorter[j]).0@ != key by {
            assert(shorter[j] == rows[j]);
        }
        lemma_record_last_row(shorter, key, i);
        assert(shorter.take(i) =~= rows.take(i));
    }
}

impl Record {
    /// A record without attributes.
    pub fn new() -> (r: Record)
        ensures
            r@ == Map::<Seq<char>, Seq<char>>::empty(),
    {
        Record { rows: Vec::new() }
    }

    /// Gives the attribute `key` the value `value`.
    pub fn insert(&mut self, key: String, value: String)
        ensures
            final(self)@ == old(self)@.insert(key@, value@),
    {
        let ghost before = self.rows@;
        self.rows.push((key, value));
        assert(self.rows@.drop_last() =~= before);
    }

    /// The value of the attribute `key`, if the record has it.
    pub fn get(&self, key: &str) -> (r: Option<&String>)
        ensures
            match r {
                Some(value) => self@.contains_key(key@) && value@ == self@[key@],
                None => !self@.contains_key(key@),
            },
    {
        let wanted = key.to_owned();
        let mut i = self.rows.len();
        while i > 0
            invariant
                i <= self.rows@.len(),
                wanted@ == key@,
                forall|j: int| i <= j < self.rows@.len() ==> (#[trigger] self.rows@[j]).0@ != key@,
            decreases i,
        {
            if self.rows[i - 1].0 == wanted {
                proof {
                    lemma_record_last_row(self.rows@, key@, i as int);
                }
                return Some(&self.rows[i - 1].1);
            }
            i -= 1;
        }
        proof {
            lemma_record_last_row(self.rows@, key@, 0);
        }
        None
    }
}

/// A value without the footnote mark that may follow it: what stands before
/// the first `[`, without the white space around it.
pub open spec fn without_footnote(value: Seq<char>) -> Seq<char> {
    trimmed(value.subrange(0, find_char(value, '[', 0)))
}

/// The value of the attribute `key` without its footnote mark.
pub fn remove_footnote(map: &Record, key: &str) -> (r: String)
    requires
        map@.contains_key(key@),
    ensures
        r@ == without_footnote(map@[key@]),
{
    match map.get(key) {
        Some(value) => {
            let chars = to_chars(value.as_str());
            let end = find(&chars, '[', 0);
            let (from, to) = trim_range(&chars, 0, end);
            value.as_str().substring_char(from, to).to_owned()
        },
        None => String::new(),
    }
}

/// The lower-case form of a text, as `str::to_lowercase` gives it.
pub uninterp spec fn lowercase(text: Seq<char>) -> Seq<char>;

/// `str::to_lowercase`: the lower-case equivalent of the text as a new
/// `String`, by the Unicode rules for lower case.
#[verifier::external_body]
fn to_lowercase(text: &str) -> (r: String)
    ensures
        r@ == lowercase(text@),
{
    text.to_lowercase()
}

/// The truth value that a lower-case text states: `true`, `false`, or
/// `n/a`, which counts as false.
pub open spec fn truth_of(lowered: Seq<char>) -> Option<bool> {
    if lowered == "n/a"@ {
        Some(false)
    } else if lowered == "true"@ {
        Some(true)
    } else if lowered == "false"@ {
        Some(false)
    } else {
        None
    }
}

/// The truth value that a lower-case text states, if it states one.
pub fn truth(lowered: &String) -> (r: Option<bool>)
    ensures
        r == truth_of(lowered@),
{
    if *lowered == "n/a".to_owned() {
        Some(false)
    } else if *lowered == "true".to_owned() {
        Some(true)
    } else if *lowered == "false".to_owned() {
        Some(false)
    } else {
        None
    }
}

/// The truth value of the attribute `key`: its value without footnote, in
/// any case of letters, is `true`, `false` or `n/a`.
pub fn parse_bool(map: &Record, key: &str) -> (r: bool)
    requires
        map@.contains_key(key@),
        truth_of(lowercase(without_footnote(map@[key@]))) is Some,
    ensures
        Some(r) == truth_of(lowercase(without_footnote(map@[key@]))),
{
    let v = to_lowercase(remove_footnote(map, key).as_str());
    match truth(&v) {
        Some(value) => value,
        None => false,
    }
}

/// The truth value of the attribute `key`, or `None` where the record lacks
/// the attribute or its value states no truth value.
pub fn find_bool(map: &Record, key: &str) -> (r: Option<bool>)
    ensures
        r == if map@.contains_key(key@) {
            truth_of(lowercase(without_footnote(map@[key@])))
        } else {
            None
        },
{
    if map.get(key).is_none() {
        return None;
    }
    let v = to_lowercase(remove_footnote(map, key).as_str());
    if truth(&v).is_some() {
        Some(parse_bool(map, key))
    } else {
        None
    }
}

/// Why a text is no table of the registry.
#[derive(Clone, Copy, Debug, PartialEq, Eq, Structural)]
pub enum TableError {
    /// The text holds characters outside ASCII.
    NotAscii,
    /// The tables could not be looked for, or what was found lacks the
    /// border or the rows.
    Capture,
    /// The border under the header does not hold exactly three `+`, or two of
    /// them stand with less than two characters between them.
    Border,
    /// A row is not as long as the border.
    Row,
    /// The table lacks an attribute.
    Missing,
    /// The address block is no network in CIDR notation.
    AddressBlock,
    /// A value that should be `True`, `False` or `N/A` is none of them.
    Truth,
}

/// An entry read from the text of an RFC.
#[derive(Clone, Debug, PartialEq, Eq)]
pub struct RfcInfo {
    pub output: RfcEntry,
}

impl View for RfcInfo {
    type V = Rfc6890EntryView;

    open spec fn view(&self) -> Rfc6890EntryView {
        match self.output {
            RfcEntry::Rfc6890(entry) => entry@,
        }
    }
}

/// The views of the entries, in order.
pub open spec fn info_views(infos: Seq<RfcInfo>) -> Seq<Rfc6890EntryView> {
    Seq::new(infos.len(), |i: int| infos[i]@)
}

/// What reading a table returned, as views.
pub open spec fn info_result(r: Result<RfcInfo, TableError>) -> Result<
    Rfc6890EntryView,
    TableError,
> {
    match r {
        Ok(info) => Ok(info@),
        Err(e) => Err(e),
    }
}

/// What reading tables returned, as views.
pub open spec fn infos_result(r: Result<Vec<RfcInfo>, TableError>) -> Result<
    Seq<Rfc6890EntryView>,
    TableError,
> {
    match r {
        Ok(infos) => Ok(info_views(infos@)),
        Err(e) => Err(e),
    }
}

/// The positions of the three `+` of a border: its left end, the line
/// between the two columns and its right end.
pub open spec fn columns_of(border: Seq<char>) -> Option<(int, int, int)> {
    let left = find_char(border, '+', 0);
    let middle = find_char(border, '+', left + 1);
    let right = find_char(border, '+', middle + 1);
    if right < border.len() && find_char(border, '+', right + 1) >= border.len() && left + 2
        <= middle && middle + 2 <= right {
        Some((left, middle, right))
    } else {
        None
    }
}

/// The record with what the row adds to it. A row of white space adds
/// nothing. Any other row is as long as the border; its attribute stands
/// between the first two lines of the border and its value between the last
/// two, each without the character before the closing line and without the
/// white space around it.
pub open spec fn with_row(
    record: Map<Seq<char>, Seq<char>>,
    row: Seq<char>,
    columns: (int, int, int),
) -> Result<Map<Seq<char>, Seq<char>>, TableError> {
    if trimmed(row).len() == 0 {
        Ok(record)
    } else if row.len() != columns.2 + 1 {
        Err(TableError::Row)
    } else {
        Ok(
            record.insert(
                trimmed(row.subrange(columns.0 + 1, columns.1 - 1)),
                trimmed(row.subrange(columns.1 + 1, columns.2 - 1)),
            ),
        )
    }
}

/// The record with what the rows from position `start` on add to it, each
/// row a line of the text.
pub open spec fn rows_from(
    table: Seq<char>,
    start: int,
    columns: (int, int, int),
    record: Map<Seq<char>, Seq<char>>,
) -> Result<Map<Seq<char>, Seq<char>>, TableError>
    decreases table.len() - start,
    via rows_from_decreases
{
    let end = find_char(table, '\n', start);
    match with_row(record, table.subrange(start, end), columns) {
        Ok(more) => if 0 <= end < table.len() {
            rows_from(table, end + 1, columns, more)
        } else {
            Ok(more)
        },
        Err(e) => Err(e),
    }
}

/// The next row begins behind the line break that ends this one.
#[via_fn]
proof fn rows_from_decreases(
    table: Seq<char>,
    start: int,
    columns: (int, int, int),
    record: Map<Seq<char>, Seq<char>>,
) {
    lemma_find_char(table, '\n', start);
}

/// The value of an attribute, which the record must have.
pub open spec fn text_at(record: Map<Seq<char>, Seq<char>>, key: Seq<char>) -> Result<
    Seq<char>,
    TableError,
> {
    if record.contains_key(key) {
        Ok(record[key])
    } else {
        Err(TableError::Missing)
    }
}

/// The truth value of an attribute, which the record must have.
pub open spec fn truth_at(record: Map<Seq<char>, Seq<char>>, key: Seq<char>) -> Result<
    bool,
    TableError,
> {
    if record.contains_key(key) {
        match truth_of(lowercase(without_footnote(record[key]))) {
            Some(value) => Ok(value),
            None => Err(TableError::Truth),
        }
    } else {
        Err(TableError::Missing)
    }
}

/// The address block of an attribute, which the record must have: its value
/// without footnote, in lower case, read as CIDR notation.
pub open spec fn block_at(record: Map<Seq<char>, Seq<char>>, key: Seq<char>) -> Result<
    AddressBlock,
    TableError,
> {
    if record.contains_key(key) {
        match parsed_net(lowercase(without_footnote(record[key]))) {
            Some(block) => Ok(block),
            None => Err(TableError::AddressBlock),
        }
    } else {
        Err(TableError::Missing)
    }
}

/// The five truth values of an entry, in the order of its fields.
pub open spec fn flags_of(record: Map<Seq<char>, Seq<char>>) -> Result<
    (bool, bool, bool, bool, bool),
    TableError,
> {
    match truth_at(record, "Source"@) {
        Err(e) => Err(e),
        Ok(source) => match truth_at(record, "Destination"@) {
            Err(e) => Err(e),
            Ok(destination) => match truth_at(record, "Forwardable"@) {
                Err(e) => Err(e),
                Ok(forwardable) => match truth_at(record, "Global"@) {
                    Err(e) => Err(e),
                    Ok(global) => match truth_at(record, "Reserved-by-Protocol"@) {
                        Err(e) => Err(e),
                        Ok(reserved) => Ok((source, destination, forwardable, global, reserved)),
                    },
                },
            },
        }
    }
}

/// The four texts of an entry, in the order of its fields.
pub open spec fn texts_of(record: Map<Seq<char>, Seq<char>>) -> Result<
    (Seq<char>, Seq<char>, Seq<char>, Seq<char>),
    TableError,
> {
    match text_at(record, "Name"@) {
        Err(e) => Err(e),
        Ok(name) => match text_at(record, "RFC"@) {
            Err(e) => Err(e),
            Ok(rfc) => match text_at(record, "Allocation Date"@) {
                Err(e) => Err(e),
                Ok(allocation) => match text_at(record, "Termination Date"@) {
                    Err(e) => Err(e),
                    Ok(termination) => Ok((name, rfc, allocation, termination)),
                },
            },
        }
    }
}

/// The entry that a record describes: its address block, its texts and its
/// truth values, looked for in this order; the first that is missing or
/// cannot be read decides the error.
pub open spec fn entry_of(record: Map<Seq<char>, Seq<char>>) -> Result<
    Rfc6890EntryView,
    TableError,
> {
    match block_at(record, "Address Block"@) {
        Err(e) => Err(e),
        Ok(block) => match texts_of(record) {
            Err(e) => Err(e),
            Ok(texts) => match flags_of(record) {
                Err(e) => Err(e),
                Ok(flags) => Ok(
                    entry_view(
                        block,
                        texts.0,
                        texts.1,
                        texts.2,
                        texts.3,
                        flags.0,
                        flags.1,
                        flags.2,
                        flags.3,
                        flags.4,
                    ),
                ),
            },
        },
    }
}

/// The entry that a table describes: `head` is the border under the table's
/// header and `table` the rows that follow it.
pub open spec fn table_spec(head: Seq<char>, table: Seq<char>) -> Result<
    Rfc6890EntryView,
    TableError,
> {
    if !is_ascii_chars(head) || !is_ascii_chars(table) {
        Err(TableError::NotAscii)
    } else {
        match columns_of(head) {
            None => Err(TableError::Border),
            Some(columns) => match rows_from(table, 0, columns, Map::empty()) {
                Err(e) => Err(e),
                Ok(record) => entry_of(record),
            },
        }
    }
}

/// The positions of the three `+` of a border.
fn columns(border: &Vec<char>) -> (r: Option<(usize, usize, usize)>)
    ensures
        match r {
            Some(c) => columns_of(border@) == Some((c.0 as int, c.1 as int, c.2 as int)) && c.0 + 2
                <= c.1 && c.1 + 2 <= c.2 && c.2 < border@.len(),
            None => columns_of(border@) is None,
        },
{
    let n = border.len();
    let left = find(border, '+', 0);
    if left >= n {
        proof {
            lemma_find_char(border@, '+', left + 1);
            lemma_find_char(border@, '+', find_char(border@, '+', left + 1) + 1);
        }
        return None;
    }
    let middle = find(border, '+', left + 1);
    if middle >= n {
        proof {
            lemma_find_char(border@, '+', middle + 1);
        }
        return None;
    }
    let right = find(border, '+', middle + 1);
    if right >= n {
        return None;
    }
    let further = find(border, '+', right + 1);
    if further < n || middle < left + 2 || right < middle + 2 {
        return None;
    }
    Some((left, middle, right))
}

/// Reads the rows of a table into a record.
fn read_rows(table: &str, chars: &Vec<char>, columns: (usize, usize, usize)) -> (r: Result<
    Record,
    TableError,
>)
    requires
        chars@ == table@,
        columns.0 + 2 <= columns.1,
        columns.1 + 2 <= columns.2,
        columns.2 < usize::MAX,
    ensures
        match r {
            Ok(record) => rows_from(
                table@,
                0,
                (columns.0 as int, columns.1 as int, columns.2 as int),
                Map::empty(),
            ) == Ok::<_, TableError>(record@),
            Err(e) => rows_from(
                table@,
                0,
                (columns.0 as int, columns.1 as int, columns.2 as int),
                Map::empty(),
            ) == Err::<Map<Seq<char>, Seq<char>>, _>(e),
        },
{
    let ghost cols = (columns.0 as int, columns.1 as int, columns.2 as int);
    let mut record = Record::new();
    let mut start: usize = 0;
    loop
        invariant
            chars@ == table@,
            start <= chars@.len(),
            cols == (columns.0 as int, columns.1 as int, columns.2 as int),
            columns.0 + 2 <= columns.1,
            columns.1 + 2 <= columns.2,
            columns.2 < usize::MAX,
            rows_from(table@, 0, cols, Map::empty()) == rows_from(
                table@,
                start as int,
                cols,
                record@,
            ),
        decreases chars@.len() - start,
    {
        let end = find(chars, '\n', start);
        let ghost row = table@.subrange(start as int, end as int);
        let (from, to) = trim_range(chars, start, end);
        if from < to {
            if end - start != columns.2 + 1 {
                return Err(TableError::Row);
            }
            let (key_from, key_to) = trim_range(chars, start + columns.0 + 1, start + columns.1 - 1);
            let (value_from, value_to) = trim_range(
                chars,
                start + columns.1 + 1,
                start + columns.2 - 1,
            );
            proof {
                assert(row.subrange(cols.0 + 1, cols.1 - 1) =~= table@.subrange(
                    start + columns.0 + 1,
                    start + columns.1 - 1,
                ));
                assert(row.subrange(cols.1 + 1, cols.2 - 1) =~= table@.subrange(
                    start + columns.1 + 1,
                    start + columns.2 - 1,
                ));
            }
            let key = table.substring_char(key_from, key_to).to_owned();
            let value = table.substring_char(value_from, value_to).to_owned();
            record.insert(key, value);
        }
        if end >= chars.len() {
            return Ok(record);
        }
        start = end + 1;
    }
}

/// The value of an attribute, which the record must have.
fn text_of(map: &Record, key: &str) -> (r: Result<String, TableError>)
    ensures
        match r {
            Ok(value) => text_at(map@, key@) == Ok::<_, TableError>(value@),
            Err(e) => text_at(map@, key@) == Err::<Seq<char>, _>(e),
        },
{
    match map.get(key) {
        Some(value) => Ok(value.clone()),
        None => Err(TableError::Missing),
    }
}

/// The truth value of an attribute, which the record must have.
fn truth_for(map: &Record, key: &str) -> (r: Result<bool, TableError>)
    ensures
        r == truth_at(map@, key@),
{
    if map.get(key).is_none() {
        return Err(TableError::Missing);
    }
    match find_bool(map, key) {
        Some(value) => Ok(value),
        None => Err(TableError::Truth),
    }
}

/// The address block of the attribute `key`: its value without footnote,
/// in lower case, read as CIDR notation; `None` where it is none.
fn parse_address_block(map: &Record, key: &str) -> (r: Option<AddressBlock>)
    requires
        map@.contains_key(key@),
    ensures
        r == parsed_net(lowercase(without_footnote(map@[key@]))),
{
    let v = remove_footnote(map, key);
    AddressBlock::parse(to_lowercase(v.as_str()).as_str())
}

/// The address block of an attribute, which the record must have.
fn block_for(map: &Record, key: &str) -> (r: Result<AddressBlock, TableError>)
    ensures
        r == block_at(map@, key@),
{
    if map.get(key).is_none() {
        return Err(TableError::Missing);
    }
    match parse_address_block(map, key) {
        Some(block) => Ok(block),
        None => Err(TableError::AddressBlock),
    }
}

/// The five truth values of an entry, in the order of its fields.
fn flags(map: &Record) -> (r: Result<(bool, bool, bool, bool, bool), TableError>)
    ensures
        r == flags_of(map@),
{
    let source = match truth_for(map, "Source") {
        Ok(value) => value,
        Err(e) => {
            return Err(e);
        },
    };
    let destination = match truth_for(map, "Destination") {
        Ok(value) => value,
        Err(e) => {
            return Err(e);
        },
    };
    let forwardable = match truth_for(map, "Forwardable") {
        Ok(value) => value,
        Err(e) => {
            return Err(e);
        },
    };
    let global = match truth_for(map, "Global") {
        Ok(value) => value,
        Err(e) => {
            return Err(e);
        },
    };
    let reserved = match truth_for(map, "Reserved-by-Protocol") {
        Ok(value) => value,
        Err(e) => {
            return Err(e);
        },
    };
    Ok((source, destination, forwardable, global, reserved))
}

/// The entry that a record describes.
fn entry_from(map: &Record) -> (r: Result<Rfc6890Entry, TableError>)
    ensures
        match r {
            Ok(entry) => entry_of(map@) == Ok::<_, TableError>(entry@),
            Err(e) => entry_of(map@) == Err::<Rfc6890EntryView, _>(e),
        },
{
    let address_block = match block_for(map, "Address Block") {
        Ok(block) => block,
        Err(e) => {
            return Err(e);
        },
    };
    let name = match text_of(map, "Name") {
        Ok(value) => value,
        Err(e) => {
            return Err(e);
        },
    };
    let rfc = match text_of(map, "RFC") {
        Ok(value) => value,
        Err(e) => {
            return Err(e);
        },
    };
    let allocation_date = match text_of(map, "Allocation Date") {
        Ok(value) => value,
        Err(e) => {
            return Err(e);
        },
    };
    let termination_date = match text_of(map, "Termination Date") {
        Ok(value) => value,
        Err(e) => {
            return Err(e);
        },
    };
    match flags(map) {
        Ok(truths) => Ok(
            Rfc6890Entry {
                address_block,
                name,
                rfc,
                allocation_date,
                termination_date,
                source: truths.0,
                destination: truths.1,
                forwardable: truths.2,
                global: truths.3,
                reserved_by_protocol: truths.4,
            },
        ),
        Err(e) => Err(e),
    }
}

/// Reads one table: `head` is the border under the table's header, `table`
/// the rows that follow it. The tables of an RFC are ASCII; a text with
/// other characters is refused.
pub fn parse_table(head: &str, table: &str) -> (r: Result<RfcInfo, TableError>)
    ensures
        info_result(r) == table_spec(head@, table@),
{
    if !head.is_ascii() || !table.is_ascii() {
        return Err(TableError::NotAscii);
    }
    let border = to_chars(head);
    let found = match columns(&border) {
        Some(c) => c,
        None => {
            return Err(TableError::Border);
        },
    };
    let chars = to_chars(table);
    let record = match read_rows(table, &chars, found) {
        Ok(record) => record,
        Err(e) => {
            return Err(e);
        },
    };
    match entry_from(&record) {
        Ok(entry) => Ok(RfcInfo { output: RfcEntry::Rfc6890(entry) }),
        Err(e) => Err(e),
    }
}

/// What the `regex` crate finds in a text for a pattern: each match that
/// does not overlap an earlier one, in the order of the text, as the list of
/// its groups, the whole match first; a group that took no part in the match
/// is `None`. `None` where the pattern is no regular expression.
pub uninterp spec fn regex_captures(pattern: Seq<char>, text: Seq<char>) -> Option<
    Seq<Seq<Option<Seq<char>>>>,
>;

/// The groups of a match, as views.
pub open spec fn group_views(groups: Seq<Option<String>>) -> Seq<Option<Seq<char>>> {
    Seq::new(
        groups.len(),
        |i: int|
            match groups[i] {
                Some(text) => Some(text@),
                None => None,
            },
    )
}

/// The matches of a pattern, as views.
pub open spec fn match_views(matches: Seq<Vec<Option<String>>>) -> Seq<Seq<Option<Seq<char>>>> {
    Seq::new(matches.len(), |i: int| group_views(matches[i]@))
}

/// `regex::Regex::new` and `regex::Regex::captures_iter`: compiles the
/// pattern and collects, for each successive match in the text, the text of
/// each of its groups. What is found depends on the pattern and the text
/// alone.
#[verifier::external_body]
fn captures(pattern: &str, text: &str) -> (r: Option<Vec<Vec<Option<String>>>>)
    ensures
        match r {
            Some(matches) => regex_captures(pattern@, text@) == Some(match_views(matches@)),
            None => regex_captures(pattern@, text@) is None,
        },
{
    let re = regex::Regex::new(pattern).ok()?;
    Some(
        re.captures_iter(text).map(
            |found| found.iter().map(|group| group.map(|m| m.as_str().to_owned())).collect(),
        ).collect(),
    )
}

/// The pattern of a table in the text of an RFC: a header with the columns
/// `Attribute` and `Value` between two borders, then the rows up to the next
/// border. Its first group is the border under the header with the white
/// space before it, its second the rows.
pub open spec fn table_pattern() -> Seq<char> {
    r"(?m)\+----+\+----+\+[^|]+\|\s*Attribute\s*\|\s*Value\s*\|[\r\n]+([^+]+\+----+\+----+\+)[\r\n]+([^+]+)\+----+\+----+\+"@
}

/// The entries of the tables found, from match `i` on: each match gives the
/// border in its first group and the rows in its second.
pub open spec fn entries_from(matches: Seq<Seq<Option<Seq<char>>>>, i: int) -> Result<
    Seq<Rfc6890EntryView>,
    TableError,
>
    decreases matches.len() - i,
{
    if i < 0 || i >= matches.len() {
        Ok(Seq::empty())
    } else {
        match found_table(matches[i]) {
            Err(e) => Err(e),
            Ok(entry) => match entries_from(matches, i + 1) {
                Err(e) => Err(e),
                Ok(rest) => Ok(seq![entry] + rest),
            },
        }
    }
}

/// The entry of one table found.
pub open spec fn found_table(groups: Seq<Option<Seq<char>>>) -> Result<Rfc6890EntryView, TableError> {
    if groups.len() < 3 {
        Err(TableError::Capture)
    } else {
        match (groups[1], groups[2]) {
            (Some(head), Some(table)) => table_spec(head, table),
            _ => Err(TableError::Capture),
        }
    }
}

/// The entries of all tables in the text of an RFC, in the order of the
/// text, or the first error.
pub open spec fn tables_spec(tables: Seq<char>) -> Result<Seq<Rfc6890EntryView>, TableError> {
    match regex_captures(table_pattern(), tables) {
        Some(matches) => entries_from(matches, 0),
        None => Err(TableError::Capture),
    }
}

/// `entries` in front of the entries that `rest` holds; an error stays.
pub open spec fn entries_then(
    entries: Seq<Rfc6890EntryView>,
    rest: Result<Seq<Rfc6890EntryView>, TableError>,
) -> Result<Seq<Rfc6890EntryView>, TableError> {
    match rest {
        Ok(more) => Ok(entries + more),
        Err(e) => Err(e),
    }
}

/// Reads the entry of one table found.
pub fn parse_found(groups: &Vec<Option<String>>) -> (r: Result<RfcInfo, TableError>)
    ensures
        info_result(r) == found_table(group_views(groups@)),
{
    if groups.len() < 3 {
        return Err(TableError::Capture);
    }
    match (&groups[1], &groups[2]) {
        (Some(head), Some(table)) => parse_table(head.as_str(), table.as_str()),
        _ => Err(TableError::Capture),
    }
}

/// Reads the entries found by the pattern, in the order of the text.
pub fn parse_matches(found: &Vec<Vec<Option<String>>>) -> (r: Result<Vec<RfcInfo>, TableError>)
    ensures
        infos_result(r) == entries_from(match_views(found@), 0),
{
    let ghost matches = match_views(found@);
    let mut out: Vec<RfcInfo> = Vec::new();
    let mut i: usize = 0;
    loop
        invariant
            i <= found@.len(),
            matches == match_views(found@),
            entries_from(matches, 0) == entries_then(info_views(out@), entries_from(matches, i as int)),
        decreases found@.len() - i,
    {
        if i >= found.len() {
            return Ok(out);
        }
        match parse_found(&found[i]) {
            Ok(info) => {
                let ghost before = info_views(out@);
                out.push(info);
                proof {
                    assert(info_views(out@) =~= before + seq![info@]);
                    match entries_from(matches, i + 1) {
                        Ok(rest) => {
                            assert((before + seq![info@]) + rest =~= before + (seq![info@] + rest));
                        },
                        Err(_) => {},
                    }
                }
            },
            Err(e) => {
                return Err(e);
            },
        }
        i += 1;
    }
}

/// Reads all the tables of the text of an RFC, in the order of the text.
/// The first table that cannot be read decides the error.
pub fn parse_tables(tables: &str) -> (r: Result<Vec<RfcInfo>, TableError>)
    ensures
        infos_result(r) == tables_spec(tables@),
{
    match captures(
        r"(?m)\+----+\+----+\+[^|]+\|\s*Attribute\s*\|\s*Value\s*\|[\r\n]+([^+]+\+----+\+----+\+)[\r\n]+([^+]+)\+----+\+----+\+",
        tables,
    ) {
        Some(found) => parse_matches(&found),
        None => Err(TableError::Capture),
    }
}

/// The text of a truth value in source code.
pub open spec fn truth_text(value: bool) -> Seq<char> {
    if value {
        "true"@
    } else {
        "false"@
    }
}

/// The source code that builds the entry.
pub open spec fn code_of(entry: Rfc6890EntryView) -> Seq<char> {
    "Rfc6890Entry {\n    address_block: \""@ + entry.address_block.text()
        + "\".parse().unwrap(),\n    name: \""@ + escaped(entry.name)
        + "\".to_owned(),\n    rfc: \""@ + escaped(entry.rfc)
        + "\".to_owned(),\n    allocation_date: \""@ + escaped(entry.allocation_date)
        + "\".to_owned(),\n    termination_date: \""@ + escaped(entry.termination_date)
        + "\".to_owned(),\n    source: "@ + truth_text(entry.source) + ",\n    destination: "@
        + truth_text(entry.destination) + ",\n    forwardable: "@ + truth_text(entry.forwardable)
        + ",\n    global: "@ + truth_text(entry.global) + ",\n    reserved_by_protocol: "@
        + truth_text(entry.reserved_by_protocol) + "\n}"@
}

/// The text of a truth value in source code.
fn truth_str(value: bool) -> (r: &'static str)
    ensures
        r@ == truth_text(value),
{
    if value {
        "true"
    } else {
        "false"
    }
}

impl Rfc6890Entry {
    /// The source code that builds this entry.
    pub fn as_code(&self) -> (r: String)
        ensures
            r@ == code_of(self@),
    {
        let mut out = String::new();
        out.append("Rfc6890Entry {\n    address_block: \"");
        out.append(self.address_block.to_text().as_str());
        out.append("\".parse().unwrap(),\n    name: \"");
        out.append(escape_quotes(self.name.as_str()).as_str());
        out.append("\".to_owned(),\n    rfc: \"");
        out.append(escape_quotes(self.rfc.as_str()).as_str());
        out.append("\".to_owned(),\n    allocation_date: \"");
        out.append(escape_quotes(self.allocation_date.as_str()).as_str());
        out.append("\".to_owned(),\n    termination_date: \"");
        out.append(escape_quotes(self.termination_date.as_str()).as_str());
        out.append("\".to_owned(),\n    source: ");
        out.append(truth_str(self.source));
        out.append(",\n    destination: ");
        out.append(truth_str(self.destination));
        out.append(",\n    forwardable: ");
        out.append(truth_str(self.forwardable));
        out.append(",\n    global: ");
        out.append(truth_str(self.global));
        out.append(",\n    reserved_by_protocol: ");
        out.append(truth_str(self.reserved_by_protocol));
        out.append("\n}");
        out
    }
}

/// The line of an entry in a listing of the registry as source code: the
/// entry and a comma, inside a comment where the entry has a termination
/// date.
pub open spec fn listing_of(entry: Rfc6890EntryView) -> Seq<char> {
    if entry.termination_date == "N/A"@ {
        code_of(entry) + ","@
    } else {
        "/*"@ + code_of(entry) + ",*/"@
    }
}

/// The line of an entry in a listing of the registry as source code. An
/// entry whose allocation ends is written as a comment.
pub fn listing(entry: &Rfc6890Entry) -> (r: String)
    ensures
        r@ == listing_of(entry@),
{
    if entry.termination_date == "N/A".to_owned() {
        let mut out = entry.as_code();
        out.append(",");
        out
    } else {
        let mut out = String::new();
        out.append("/*");
        out.append(entry.as_code().as_str());
        out.append(",*/");
        out
    }
}

} // verus!
