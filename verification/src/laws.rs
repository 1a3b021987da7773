//! Properties of the reader that relate whole parses, proved from the
//! specification of the scan.

use vstd::prelude::*;

use crate::reader::Customer;
use crate::reader::InstanceModel;
use crate::reader::ParseError;
use crate::reader::Section;
use crate::reader::customer_line_fits;
use crate::reader::end_depot_of;
use crate::reader::kw_vehicle;
use crate::reader::parse_spec;
use crate::reader::state_after;
use crate::reader::step;
use crate::text::lines_of;
use crate::text::tokens_of;

verus! {

/// The customer records read from the file, before the end-depot copy is
/// appended.
pub open spec fn data_customers(content: Seq<u8>) -> Seq<Customer> {
    state_after(lines_of(content), lines_of(content).len() as int).customers
}

/// Line `i` is a customer data line: the scan reaches it inside the
/// `CUSTOMER` section without an earlier error, and it has exactly seven
/// tokens.
pub open spec fn is_customer_data_line(lines: Seq<Seq<u8>>, i: int) -> bool {
    &&& state_after(lines, i).error is None
    &&& state_after(lines, i).section matches Section::InCustomer
    &&& tokens_of(lines[i]).len() == 7
}

/// How many of the first `n` lines are customer data lines.
pub open spec fn data_line_count(lines: Seq<Seq<u8>>, n: int) -> nat
    decreases n,
{
    if n <= 0 {
        0
    } else {
        data_line_count(lines, n - 1) + (if is_customer_data_line(lines, n - 1) {
            1nat
        } else {
            0nat
        })
    }
}

/// Once a line error is recorded, every later state carries it unchanged.
proof fn lemma_error_absorbs(lines: Seq<Seq<u8>>, m: int, n: int)
    requires
        0 <= m <= n,
        state_after(lines, m).error is Some,
    ensures
        state_after(lines, n) == state_after(lines, m),
    decreases n - m,
{
    if m < n {
        lemma_error_absorbs(lines, m, n - 1);
        assert(state_after(lines, n) == step(
            state_after(lines, n - 1),
            lines[n - 1],
            (n - 1) as usize,
        ));
    }
}

/// While no error has occurred, the records collected so far are exactly
/// one per customer data line seen so far.
proof fn lemma_count_matches(lines: Seq<Seq<u8>>, n: int)
    requires
        0 <= n,
        state_after(lines, n).error is None,
    ensures
        state_after(lines, n).customers.len() == data_line_count(lines, n),
    decreases n,
{
    if n > 0 {
        if state_after(lines, n - 1).error is Some {
            lemma_error_absorbs(lines, n - 1, n);
            assert(false);
        }
        lemma_count_matches(lines, n - 1);
        assert(state_after(lines, n) == step(
            state_after(lines, n - 1),
            lines[n - 1],
            (n - 1) as usize,
        ));
    }
}

/// A successful parse returns a well-formed instance: positive fleet size
/// and capacity, a non-empty stop sequence, and depot identifiers equal to
/// the `id` of the first and the last record.
pub proof fn lemma_ok_well_formed(content: Seq<u8>)
    requires
        parse_spec(content) is Ok,
    ensures
        (match parse_spec(content) {
            Result::Ok(m) => m.wf(),
            Result::Err(_) => true,
        }),
{
}

/// On a successful parse the number of stops is the number of customer
/// data lines in the file plus one, for the synthesized end-depot copy.
pub proof fn lemma_record_count(content: Seq<u8>)
    requires
        parse_spec(content) is Ok,
    ensures
        (match parse_spec(content) {
            Result::Ok(m) => m.stops.len() == data_line_count(
                lines_of(content),
                lines_of(content).len() as int,
            ) + 1,
            Result::Err(_) => true,
        }),
{
    lemma_count_matches(lines_of(content), lines_of(content).len() as int);
}

/// When the `id`s read from the file are pairwise distinct and none of
/// them collides with the `id` given to the end-depot copy, all `id`s in
/// the result are pairwise distinct.
pub proof fn lemma_ids_distinct(content: Seq<u8>)
    requires
        parse_spec(content) is Ok,
        forall|i: int, j: int|
            0 <= i < j < data_customers(content).len() ==> data_customers(content)[i].id
                != data_customers(content)[j].id,
        forall|i: int|
            0 <= i < data_customers(content).len() ==> data_customers(content)[i].id
                != end_depot_of(data_customers(content)).id,
    ensures
        (match parse_spec(content) {
            Result::Ok(m) => forall|i: int, j: int|
                0 <= i < j < m.stops.len() ==> m.stops[i].id != m.stops[j].id,
            Result::Err(_) => true,
        }),
{
    let cs = data_customers(content);
    match parse_spec(content) {
        Result::Ok(m) => {
            assert(m.stops == cs.push(end_depot_of(cs)));
            assert forall|i: int, j: int| 0 <= i < j < m.stops.len() implies m.stops[i].id
                != m.stops[j].id by {
                assert(m.stops[i] == cs[i]);
                if j < cs.len() {
                    assert(m.stops[j] == cs[j]);
                } else {
                    assert(m.stops[j] == end_depot_of(cs));
                }
            }
        },
        Result::Err(_) => {},
    }
}

/// While no line reads `VEHICLE`, the scan never enters the vehicle
/// section and never records a fleet.
proof fn lemma_no_vehicle_kw(lines: Seq<Seq<u8>>, n: int)
    requires
        0 <= n,
        forall|i: int| 0 <= i < n ==> tokens_of(lines[i]) != seq![kw_vehicle()],
    ensures
        !(state_after(lines, n).section matches Section::InVehicle),
        state_after(lines, n).vehicle is None,
    decreases n,
{
    if n > 0 {
        lemma_no_vehicle_kw(lines, n - 1);
        assert(state_after(lines, n) == step(
            state_after(lines, n - 1),
            lines[n - 1],
            (n - 1) as usize,
        ));
    }
}

/// A file with no `VEHICLE` section never yields an instance; when no line
/// error occurs either, the failure is a structural violation.
pub proof fn lemma_missing_vehicle_section(content: Seq<u8>)
    requires
        forall|i: int|
            0 <= i < lines_of(content).len() ==> tokens_of(lines_of(content)[i]) != seq![
                kw_vehicle(),
            ],
    ensures
        parse_spec(content) is Err,
        state_after(lines_of(content), lines_of(content).len() as int).error is None
            ==> parse_spec(content) == Result::<InstanceModel, ParseError>::Err(
            ParseError::StructuralViolation,
        ),
{
    lemma_no_vehicle_kw(lines_of(content), lines_of(content).len() as int);
}

/// A customer data line with a token that does not denote an integer makes
/// the whole parse fail with `MalformedField` naming that line.
pub proof fn lemma_malformed_customer_line(content: Seq<u8>, i: int)
    requires
        0 <= i < lines_of(content).len(),
        state_after(lines_of(content), i).error is None,
        state_after(lines_of(content), i).section matches Section::InCustomer,
        tokens_of(lines_of(content)[i]).len() == 7,
        !customer_line_fits(tokens_of(lines_of(content)[i])),
    ensures
        parse_spec(content) == Result::<InstanceModel, ParseError>::Err(
            ParseError::MalformedField { line: i as usize },
        ),
{
    let lines = lines_of(content);
    assert(state_after(lines, i + 1) == step(state_after(lines, i), lines[i], i as usize));
    assert(state_after(lines, i + 1).error == Option::Some(
        ParseError::MalformedField { line: i as usize },
    ));
    lemma_error_absorbs(lines, i + 1, lines.len() as int);
}

} // verus!
