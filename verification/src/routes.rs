//! Reading the name of the default route's interface out of what the
//! system's routing commands print: `route -n get default` on macOS and
//! `ip route` on Linux.

use crate::text::{
    find, find_char, lemma_find_char, starts_with, to_chars, trim_range, trimmed, word_at,
};
use vstd::prelude::*;

verus! {

/// The line that starts at `start`, without the white space around it.
pub open spec fn line_at(s: Seq<char>, start: int) -> Seq<char> {
    trimmed(s.subrange(start, find_char(s, '\n', start)))
}

/// The interface that the output of `route -n get default` names, read from
/// the line at `start` on: what follows `interface:` on the first line that
/// begins with it, without the white space around it. Nothing where no line
/// begins with it.
pub open spec fn mac_interface_from(s: Seq<char>, start: int) -> Seq<char>
    decreases s.len() - start,
    via mac_interface_from_decreases
{
    let end = find_char(s, '\n', start);
    let line = line_at(s, start);
    if starts_with(line, "interface:"@) {
        trimmed(line.skip("interface:"@.len() as int))
    } else if 0 <= end < s.len() {
        mac_interface_from(s, end + 1)
    } else {
        Seq::empty()
    }
}

/// The next line begins behind the line break that ends this one.
#[via_fn]
proof fn mac_interface_from_decreases(s: Seq<char>, start: int) {
    lemma_find_char(s, '\n', start);
}

/// The position at which the last field of a line begins: the position
/// after its last space before `j`, or 0.
pub open spec fn field_start(line: Seq<char>, j: int) -> int
    decreases j,
{
    if 0 < j <= line.len() && line[j - 1] != ' ' {
        field_start(line, j - 1)
    } else {
        j
    }
}

/// What stands after the last space of a line; the line itself where it
/// holds no space.
pub open spec fn last_field(line: Seq<char>) -> Seq<char> {
    line.subrange(field_start(line, line.len() as int), line.len() as int)
}

/// The interface that the output of `ip route` names, read from the line at
/// `start` on: the last field of the first line that begins with `default `.
/// Nothing where no line begins with it.
pub open spec fn linux_interface_from(s: Seq<char>, start: int) -> Seq<char>
    decreases s.len() - start,
    via linux_interface_from_decreases
{
    let end = find_char(s, '\n', start);
    let line = line_at(s, start);
    if starts_with(line, "default "@) {
        last_field(line)
    } else if 0 <= end < s.len() {
        linux_interface_from(s, end + 1)
    } else {
        Seq::empty()
    }
}

/// The next line begins behind the line break that ends this one.
#[via_fn]
proof fn linux_interface_from_decreases(s: Seq<char>, start: int) {
    lemma_find_char(s, '\n', start);
}

/// The field of a part of a text begins where it begins in the part taken
/// by itself.
proof fn lemma_field_start_part(s: Seq<char>, from: int, to: int, j: int)
    requires
        0 <= from <= j <= to <= s.len(),
    ensures
        field_start(s.subrange(from, to), j - from) >= 0,
        field_start(s.subrange(from, to), j - from) <= j - from,
        j > from && s[j - 1] != ' ' ==> field_start(s.subrange(from, to), j - from) == field_start(
            s.subrange(from, to),
            j - 1 - from,
        ),
        j == from || s[j - 1] == ' ' ==> field_start(s.subrange(from, to), j - from) == j - from,
    decreases j - from,
{
    if j > from && s[j - 1] != ' ' {
        lemma_field_start_part(s, from, to, j - 1);
    }
}

/// The name of the default route's interface in the output of
/// `route -n get default`; empty where the output names none.
pub fn parse_mac_ip_cmd(output: &str) -> (r: String)
    ensures
        r@ == mac_interface_from(output@, 0),
{
    let chars = to_chars(output);
    let mut start: usize = 0;
    loop
        invariant
            chars@ == output@,
            start <= chars@.len(),
            mac_interface_from(output@, 0) == mac_interface_from(output@, start as int),
        decreases chars@.len() - start,
    {
        let end = find(&chars, '\n', start);
        let (from, to) = trim_range(&chars, start, end);
        match word_at(&chars, from, "interface:") {
            Some(after) if after <= to => {
                let (a, b) = trim_range(&chars, after, to);
                proof {
                    let line = line_at(output@, start as int);
                    assert(line.subrange(0, "interface:"@.len() as int) =~= output@.subrange(
                        from as int,
                        after as int,
                    ));
                    assert(line.skip("interface:"@.len() as int) =~= output@.subrange(
                        after as int,
                        to as int,
                    ));
                }
                return output.substring_char(a, b).to_owned();
            },
            _ => {
                proof {
                    let line = line_at(output@, start as int);
                    let n = "interface:"@.len() as int;
                    if n <= line.len() {
                        assert(line.subrange(0, n) =~= output@.subrange(from as int, from + n));
                    }
                }
            },
        }
        if end >= chars.len() {
            return String::new();
        }
        start = end + 1;
    }
}

/// The name of the default route's interface in the output of `ip route`;
/// empty where the output names none.
pub fn parse_linux_ip_cmd(output: &str) -> (r: String)
    ensures
        r@ == linux_interface_from(output@, 0),
{
    let chars = to_chars(output);
    let mut start: usize = 0;
    loop
        invariant
            chars@ == output@,
            start <= chars@.len(),
            linux_interface_from(output@, 0) == linux_interface_from(output@, start as int),
        decreases chars@.len() - start,
    {
        let end = find(&chars, '\n', start);
        let (from, to) = trim_range(&chars, start, end);
        let ghost line = line_at(output@, start as int);
        match word_at(&chars, from, "default ") {
            Some(after) if after <= to => {
                proof {
                    assert(line.subrange(0, "default "@.len() as int) =~= output@.subrange(
                        from as int,
                        after as int,
                    ));
                }
                let mut j = to;
                proof {
                    lemma_field_start_part(output@, from as int, to as int, j as int);
                }
                while j > from && chars[j - 1] != ' '
                    invariant
                        chars@ == output@,
                        from <= j <= to <= chars@.len(),
                        line == output@.subrange(from as int, to as int),
                        field_start(line, line.len() as int) == field_start(line, j - from),
                    decreases j - from,
                {
                    proof {
                        lemma_field_start_part(output@, from as int, to as int, j as int);
                    }
                    j -= 1;
                }
                proof {
                    lemma_field_start_part(output@, from as int, to as int, j as int);
                }
                return output.substring_char(j, to).to_owned();
            },
            _ => {
                proof {
                    let n = "default "@.len() as int;
                    if n <= line.len() {
                        assert(line.subrange(0, n) =~= output@.subrange(from as int, from + n));
                    }
                }
            },
        }
        if end >= chars.len() {
            return String::new();
        }
        start = end + 1;
    }
}

} // verus!
