//! The text of the final report: a blank line, then one line for each open
//! port, lowest first.

use vstd::prelude::*;
use vstd::string::StringExecFns;
use crate::collect::OpenPortSet;

verus! {

/// The character for a digit below ten.
pub open spec fn digit(value: nat) -> char {
    if value == 0 {
        '0'
    } else if value == 1 {
        '1'
    } else if value == 2 {
        '2'
    } else if value == 3 {
        '3'
    } else if value == 4 {
        '4'
    } else if value == 5 {
        '5'
    } else if value == 6 {
        '6'
    } else if value == 7 {
        '7'
    } else if value == 8 {
        '8'
    } else {
        '9'
    }
}

/// A number in decimal digits, without leading zeros.
pub open spec fn decimal(value: nat) -> Seq<char>
    decreases value,
{
    if value < 10 {
        seq![digit(value)]
    } else {
        decimal(value / 10).push(digit(value % 10))
    }
}

/// The report's line for an open port: its number, then ` is open`.
pub open spec fn line_of(port: u16) -> Seq<char> {
    decimal(port as nat) + " is open"@
}

/// The whole report for `ports`: an empty line, then the line of each port.
pub open spec fn report_of(ports: Seq<u16>) -> Seq<Seq<char>> {
    Seq::new(
        ports.len() + 1,
        |i: int|
            if i == 0 {
                Seq::<char>::empty()
            } else {
                line_of(ports[i - 1])
            },
    )
}

fn digit_text(value: u16) -> (text: &'static str)
    requires
        value < 10,
    ensures
        text@ == seq![digit(value as nat)],
{
    proof {
        reveal_strlit("0");
        reveal_strlit("1");
        reveal_strlit("2");
        reveal_strlit("3");
        reveal_strlit("4");
        reveal_strlit("5");
        reveal_strlit("6");
        reveal_strlit("7");
        reveal_strlit("8");
        reveal_strlit("9");
    }
    let text = if value == 0 {
        "0"
    } else if value == 1 {
        "1"
    } else if value == 2 {
        "2"
    } else if value == 3 {
        "3"
    } else if value == 4 {
        "4"
    } else if value == 5 {
        "5"
    } else if value == 6 {
        "6"
    } else if value == 7 {
        "7"
    } else if value == 8 {
        "8"
    } else {
        "9"
    };
    assert(text@ =~= seq![digit(value as nat)]);
    text
}

/// Writes a port number in decimal digits.
pub fn decimal_text(value: u16) -> (text: String)
    ensures
        text@ == decimal(value as nat),
    decreases value,
{
    if value < 10 {
        String::from_str(digit_text(value))
    } else {
        let text = decimal_text(value / 10).concat(digit_text(value % 10));
        assert(text@ =~= decimal(value as nat));
        text
    }
}

/// The report's line for an open port.
pub fn port_line(port: u16) -> (line: String)
    ensures
        line@ == line_of(port),
{
    decimal_text(port).concat(" is open")
}

/// The lines of the report, in the order in which they are printed.
pub fn report_lines(open_ports: &OpenPortSet) -> (lines: Vec<String>)
    ensures
        lines@.len() == open_ports@.len() + 1,
        forall|i: int| 0 <= i < lines@.len() ==> (#[trigger] lines@[i])@ == report_of(open_ports@)[i],
{
    let mut lines: Vec<String> = Vec::new();
    lines.push(String::new());
    let count: usize = open_ports.len();
    let mut index: usize = 0;
    while index < count
        invariant
            count == open_ports@.len(),
            index <= count,
            lines@.len() == index + 1,
            forall|i: int|
                0 <= i < lines@.len() ==> (#[trigger] lines@[i])@ == report_of(open_ports@)[i],
        decreases count - index,
    {
        match open_ports.get(index) {
            Some(port) => {
                lines.push(port_line(port));
            },
            None => {},
        }
        index = index + 1;
    }
    lines
}

} // verus!
