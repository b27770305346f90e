//! The port specification: a comma-separated list whose elements are single
//! ports and ranges `start-end`.
//!
//! A range is half-open: `start-end` stands for `start`, `start + 1`, ... up to
//! and without `end`. So `20-23` is 20, 21, 22, and a range whose end is not
//! above its start is empty. Ports come out in the order in which they are
//! written, duplicates included.

use crate::error::{InputField, ScanError};
use crate::text::{
    chars_of, find_char, index_of, parse_u16, parse_u16_window, trim_window, trimmed,
};
use vstd::prelude::*;

verus! {

/// The ports of the range `start-end`: from `start` on, `end` left out.
pub open spec fn port_range(start: u16, end: u16) -> Seq<u16> {
    Seq::new(
        if start < end {
            (end - start) as nat
        } else {
            0
        },
        |i: int| (start + i) as u16,
    )
}

/// The ports that one element of the list stands for.
///
/// An element with a `-` in it is a range: surrounding whitespace is dropped,
/// the text before the first `-` is the start, the text between the first `-`
/// and the second (or the end of the element) is the end. Any other element
/// is one port. Start, end and port are read by `parse_u16`.
pub open spec fn ports_of_element(e: Seq<char>) -> Result<Seq<u16>, ScanError> {
    if e.contains('-') {
        let t = trimmed(e);
        let dash = index_of(t, '-');
        let rest = t.skip(dash + 1);
        match parse_u16(t.take(dash)) {
            None => Err(ScanError::InvalidVariable(InputField::PortRangeStart)),
            Some(start) => match parse_u16(rest.take(index_of(rest, '-'))) {
                None => Err(ScanError::InvalidVariable(InputField::PortRangeEnd)),
                Some(end) => Ok(port_range(start, end)),
            },
        }
    } else {
        match parse_u16(e) {
            None => Err(ScanError::PortParseFailure),
            Some(port) => Ok(seq![port]),
        }
    }
}

/// `ports` in front of what `rest` gives; the failure of `rest` where it fails.
pub open spec fn prepend_ports(ports: Seq<u16>, rest: Result<Seq<u16>, ScanError>) -> Result<
    Seq<u16>,
    ScanError,
> {
    match rest {
        Ok(more) => Ok(ports + more),
        Err(e) => Err(e),
    }
}

/// The ports of a list: those of its first element, then those of the list
/// after the first comma. The first element that fails decides the failure.
pub open spec fn ports_of_list(s: Seq<char>) -> Result<Seq<u16>, ScanError>
    decreases s.len(),
{
    let comma = index_of(s, ',');
    match ports_of_element(s.take(comma)) {
        Err(e) => Err(e),
        Ok(ports) => if 0 <= comma < s.len() {
            prepend_ports(ports, ports_of_list(s.skip(comma + 1)))
        } else {
            Ok(ports)
        },
    }
}

/// The ports that the text `input` asks for, whitespace around it dropped.
pub open spec fn port_list(input: Seq<char>) -> Result<Seq<u16>, ScanError> {
    ports_of_list(trimmed(input))
}

/// A range has one port for each number from `start` up to `end`.
pub proof fn lemma_port_range(start: u16, end: u16)
    ensures
        port_range(start, end).len() == if start < end {
            end - start
        } else {
            0
        },
        forall|i: int|
            0 <= i < port_range(start, end).len() ==> #[trigger] port_range(start, end)[i] == start
                + i,
{
}

/// Appends the ports of the range `start-end` to `out`.
fn push_port_range(out: &mut Vec<u16>, start: u16, end: u16)
    ensures
        final(out)@ == old(out)@ + port_range(start, end),
{
    let mut port: u16 = start;
    while port < end
        invariant
            start <= port,
            start < end ==> port <= end,
            start >= end ==> port == start,
            out@ == old(out)@ + port_range(start, port),
        decreases end - port,
    {
        out.push(port);
        assert(out@ =~= old(out)@ + port_range(start, (port + 1) as u16));
        port += 1;
    }
    assert(port_range(start, port) =~= port_range(start, end));
}

/// Appends the ports of the element in the window `from..to` of `v` to `out`.
/// On a failure `out` may have grown.
fn push_element(out: &mut Vec<u16>, v: &Vec<char>, from: usize, to: usize) -> (r: Result<
    (),
    ScanError,
>)
    requires
        from <= to <= v.len(),
    ensures
        match r {
            Ok(_) => ports_of_element(v@.subrange(from as int, to as int)) == Ok::<
                Seq<u16>,
                ScanError,
            >(final(out)@.skip(old(out)@.len() as int)) && final(out)@.take(
                old(out)@.len() as int,
            ) == old(out)@ && final(out)@.len() >= old(out)@.len(),
            Err(e) => ports_of_element(v@.subrange(from as int, to as int)) == Err::<
                Seq<u16>,
                ScanError,
            >(e),
        },
{
    let ghost e = v@.subrange(from as int, to as int);
    let first_dash = find_char(v, from, to, '-');
    if first_dash < to {
        let (a, b) = trim_window(v, from, to);
        let ghost t = v@.subrange(a as int, b as int);
        assert(t[first_dash - a] == '-');
        let dash = find_char(v, a, b, '-');
        assert(t.take(dash - a) =~= v@.subrange(a as int, dash as int));
        let start = match parse_u16_window(v, a, dash) {
            Some(start) => start,
            None => {
                return Err(ScanError::InvalidVariable(InputField::PortRangeStart));
            },
        };
        let rest_from: usize = dash + 1;
        let ghost rest = t.skip(dash - a + 1);
        assert(rest =~= v@.subrange(rest_from as int, b as int));
        let second_dash = find_char(v, rest_from, b, '-');
        assert(rest.take(second_dash - rest_from) =~= v@.subrange(
            rest_from as int,
            second_dash as int,
        ));
        let end = match parse_u16_window(v, rest_from, second_dash) {
            Some(end) => end,
            None => {
                return Err(ScanError::InvalidVariable(InputField::PortRangeEnd));
            },
        };
        push_port_range(out, start, end);
        assert(out@.skip(old(out)@.len() as int) =~= port_range(start, end));
        assert(out@.take(old(out)@.len() as int) =~= old(out)@);
        Ok(())
    } else {
        match parse_u16_window(v, from, to) {
            Some(port) => {
                out.push(port);
                assert(out@.skip(old(out)@.len() as int) =~= seq![port]);
                assert(out@.take(old(out)@.len() as int) =~= old(out)@);
                Ok(())
            },
            None => Err(ScanError::PortParseFailure),
        }
    }
}

/// Reads a port specification.
///
/// Returns the ports that `port_list` gives for the text, in that order, or
/// the failure of the first element that cannot be read:
/// `InvalidVariable(PortRangeStart)` or `InvalidVariable(PortRangeEnd)` for a
/// range, `PortParseFailure` for a single port.
pub fn build_port_list(port_input: String) -> (r: Result<Vec<u16>, ScanError>)
    ensures
        match r {
            Ok(ports) => port_list(port_input@) == Ok::<Seq<u16>, ScanError>(ports@),
            Err(e) => port_list(port_input@) == Err::<Seq<u16>, ScanError>(e),
        },
{
    let v = chars_of(port_input.as_str());
    let (a, b) = trim_window(&v, 0, v.len());
    assert(v@.subrange(0, v.len() as int) =~= v@);
    let ghost s = v@.subrange(a as int, b as int);
    let mut return_vector: Vec<u16> = Vec::new();
    let mut from: usize = a;
    loop
        invariant_except_break
            a <= from <= b <= v.len(),
            s == v@.subrange(a as int, b as int),
            port_list(port_input@) == ports_of_list(s),
            ports_of_list(s) == prepend_ports(
                return_vector@,
                ports_of_list(v@.subrange(from as int, b as int)),
            ),
        ensures
            port_list(port_input@) == Ok::<Seq<u16>, ScanError>(return_vector@),
        decreases b - from,
    {
        let ghost list = v@.subrange(from as int, b as int);
        let ghost before = return_vector@;
        let comma = find_char(&v, from, b, ',');
        assert(list.take(comma - from) =~= v@.subrange(from as int, comma as int));
        match push_element(&mut return_vector, &v, from, comma) {
            Err(e) => {
                return Err(e);
            },
            Ok(_) => {},
        }
        let ghost ports = return_vector@.skip(before.len() as int);
        assert(return_vector@ =~= before + ports);
        if comma < b {
            assert(list.skip(comma - from + 1) =~= v@.subrange(comma + 1, b as int));
            proof {
                let tail = ports_of_list(v@.subrange(comma + 1, b as int));
                match tail {
                    Ok(more) => {
                        assert(before + (ports + more) =~= return_vector@ + more);
                    },
                    Err(_) => {},
                }
            }
            from = comma + 1;
        } else {
            assert(before + ports =~= return_vector@);
            break ;
        }
    }
    Ok(return_vector)
}

} // verus!
