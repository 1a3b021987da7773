//! The Solomon-format instance reader: section detection, field
//! extraction, validation, and the depot-splitting transformation.

use vstd::prelude::*;

use crate::numeral::numeral_val;
use crate::numeral::parse_usize;
use crate::numeral::tok_fits;
use crate::text::lines_of;
use crate::text::seq_views;
use crate::text::split_lines;
use crate::text::split_ws;
use crate::text::tokens_of;

verus! {

/// One routing stop, or a depot record.
#[derive(Debug, PartialEq, Eq, Structural, Clone, Copy)]
pub struct Customer {
    /// Identifier, used as a relational key by downstream consumers.
    pub id: usize,
    /// Planar coordinate.
    pub x: usize,
    /// Planar coordinate.
    pub y: usize,
    /// Quantity to be served at the stop.
    pub demand: usize,
    /// Start of the feasible service window.
    pub ready_time: usize,
    /// End of the feasible service window.
    pub due_date: usize,
    /// Duration required at the stop.
    pub service_time: usize,
}

/// A parsed problem instance.
#[derive(Debug, PartialEq, Eq, Clone)]
pub struct Instance {
    /// Number of vehicles available; always positive.
    pub vehicle_count: usize,
    /// Capacity shared by all vehicles; always positive.
    pub vehicle_capacity: usize,
    /// The stops in file order; the first record is the depot and the last
    /// is its synthesized end-depot copy.
    pub stops: Vec<Customer>,
    /// The `id` of the first record in `stops`.
    pub start_depot_id: usize,
    /// The `id` of the last record in `stops`.
    pub end_depot_id: usize,
}

/// The mathematical value of an [`Instance`].
#[verifier::ext_equal]
pub struct InstanceModel {
    pub vehicle_count: usize,
    pub vehicle_capacity: usize,
    pub stops: Seq<Customer>,
    pub start_depot_id: usize,
    pub end_depot_id: usize,
}

impl InstanceModel {
    /// The invariants every parsed instance satisfies: positive fleet size
    /// and capacity, at least one stop, and depot identifiers taken from
    /// the first and last records.
    pub open spec fn wf(self) -> bool {
        &&& self.vehicle_count > 0
        &&& self.vehicle_capacity > 0
        &&& self.stops.len() > 0
        &&& self.start_depot_id == self.stops[0].id
        &&& self.end_depot_id == self.stops[self.stops.len() - 1].id
    }
}

impl View for Instance {
    type V = InstanceModel;

    open spec fn view(&self) -> InstanceModel {
        InstanceModel {
            vehicle_count: self.vehicle_count,
            vehicle_capacity: self.vehicle_capacity,
            stops: self.stops@,
            start_depot_id: self.start_depot_id,
            end_depot_id: self.end_depot_id,
        }
    }
}

/// Why a file failed to parse.
#[derive(Debug, PartialEq, Eq, Structural, Clone, Copy)]
pub enum ParseError {
    /// The file could not be opened or read. Never produced by the parsing
    /// functions themselves, which see only bytes; a caller doing the read
    /// reports its failure with this variant.
    IoFailure,
    /// A token that should have been an integer does not parse as one;
    /// `line` is the index, counting from zero, of the offending line.
    MalformedField { line: usize },
    /// The file ended without a positive vehicle count and capacity, or
    /// without a single customer record.
    StructuralViolation,
}

/// The section the reader is in while scanning lines.
#[derive(Clone, Copy)]
pub enum Section {
    /// Before any section keyword, or after one section was fully read.
    Outside,
    /// After a `VEHICLE` keyword line, before its data line.
    InVehicle,
    /// After a `CUSTOMER` keyword line.
    InCustomer,
}

/// The reader's state between lines.
#[verifier::ext_equal]
pub struct ParseState {
    pub section: Section,
    pub vehicle: Option<(usize, usize)>,
    pub customers: Seq<Customer>,
    pub error: Option<ParseError>,
}

/// The bytes of the `VEHICLE` section keyword.
pub open spec fn kw_vehicle() -> Seq<u8> {
    seq![86u8, 69u8, 72u8, 73u8, 67u8, 76u8, 69u8]
}

/// The bytes of the `CUSTOMER` section keyword.
pub open spec fn kw_customer() -> Seq<u8> {
    seq![67u8, 85u8, 83u8, 84u8, 79u8, 77u8, 69u8, 82u8]
}

/// The bytes of the `NUMBER` header label.
pub open spec fn kw_number() -> Seq<u8> {
    seq![78u8, 85u8, 77u8, 66u8, 69u8, 82u8]
}

/// The customer record denoted by seven integer tokens.
pub open spec fn customer_of(toks: Seq<Seq<u8>>) -> Customer {
    Customer {
        id: numeral_val(toks[0]) as usize,
        x: numeral_val(toks[1]) as usize,
        y: numeral_val(toks[2]) as usize,
        demand: numeral_val(toks[3]) as usize,
        ready_time: numeral_val(toks[4]) as usize,
        due_date: numeral_val(toks[5]) as usize,
        service_time: numeral_val(toks[6]) as usize,
    }
}

/// All seven tokens of a customer data line denote integers that fit.
pub open spec fn customer_line_fits(toks: Seq<Seq<u8>>) -> bool {
    &&& tok_fits(toks[0])
    &&& tok_fits(toks[1])
    &&& tok_fits(toks[2])
    &&& tok_fits(toks[3])
    &&& tok_fits(toks[4])
    &&& tok_fits(toks[5])
    &&& tok_fits(toks[6])
}

/// The state before any line is read.
pub open spec fn init_state() -> ParseState {
    ParseState {
        section: Section::Outside,
        vehicle: Option::None,
        customers: seq![],
        error: Option::None,
    }
}

/// How one line, standing at index `idx`, transforms the reader's state.
pub open spec fn step(st: ParseState, line: Seq<u8>, idx: usize) -> ParseState {
    match st.error {
        Option::Some(_) => st,
        Option::None => {
            let toks = tokens_of(line);
            if toks.len() == 0 {
                st
            } else if toks == seq![kw_vehicle()] {
                ParseState { section: Section::InVehicle, ..st }
            } else if toks == seq![kw_customer()] {
                ParseState { section: Section::InCustomer, ..st }
            } else {
                match st.section {
                    Section::Outside => st,
                    Section::InVehicle => {
                        if toks.len() == 2 {
                            if toks[0] == kw_number() {
                                st
                            } else if tok_fits(toks[0]) && tok_fits(toks[1]) {
                                ParseState {
                                    section: Section::Outside,
                                    vehicle: Option::Some(
                                        (
                                            numeral_val(toks[0]) as usize,
                                            numeral_val(toks[1]) as usize,
                                        ),
                                    ),
                                    ..st
                                }
                            } else {
                                ParseState {
                                    error: Option::Some(ParseError::MalformedField { line: idx }),
                                    ..st
                                }
                            }
                        } else {
                            st
                        }
                    },
                    Section::InCustomer => {
                        if toks.len() == 7 {
                            if customer_line_fits(toks) {
                                ParseState { customers: st.customers.push(customer_of(toks)), ..st }
                            } else {
                                ParseState {
                                    error: Option::Some(ParseError::MalformedField { line: idx }),
                                    ..st
                                }
                            }
                        } else {
                            st
                        }
                    },
                }
            }
        },
    }
}

/// The reader's state after the first `n` lines.
pub open spec fn state_after(lines: Seq<Seq<u8>>, n: int) -> ParseState
    decreases n,
{
    if n <= 0 {
        init_state()
    } else {
        step(state_after(lines, n - 1), lines[n - 1], (n - 1) as usize)
    }
}

/// The end-depot record: a copy of the depot with the next unused
/// sequential index as its `id`.
pub open spec fn end_depot_of(cs: Seq<Customer>) -> Customer {
    Customer {
        id: cs.len() as usize,
        x: cs[0].x,
        y: cs[0].y,
        demand: cs[0].demand,
        ready_time: cs[0].ready_time,
        due_date: cs[0].due_date,
        service_time: cs[0].service_time,
    }
}

/// The instance built from a successful scan: the depot record is
/// duplicated at the end under a fresh `id`, and the depot identifiers
/// point at the first and last records.
pub open spec fn instance_model(nv: usize, cap: usize, cs: Seq<Customer>) -> InstanceModel {
    InstanceModel {
        vehicle_count: nv,
        vehicle_capacity: cap,
        stops: cs.push(end_depot_of(cs)),
        start_depot_id: cs[0].id,
        end_depot_id: end_depot_of(cs).id,
    }
}

/// Turns a finished scan into the result: any line error wins, then the
/// structural checks, then the depot-splitting transformation.
pub open spec fn finish(st: ParseState) -> Result<InstanceModel, ParseError> {
    match st.error {
        Option::Some(e) => Result::Err(e),
        Option::None => match st.vehicle {
            Option::Some(v) => {
                if v.0 > 0 && v.1 > 0 && st.customers.len() > 0 {
                    Result::Ok(instance_model(v.0, v.1, st.customers))
                } else {
                    Result::Err(ParseError::StructuralViolation)
                }
            },
            Option::None => Result::Err(ParseError::StructuralViolation),
        },
    }
}

/// What parsing a sequence of lines returns.
pub open spec fn parse_lines_spec(lines: Seq<Seq<u8>>) -> Result<InstanceModel, ParseError> {
    finish(state_after(lines, lines.len() as int))
}

/// What parsing a byte buffer returns.
pub open spec fn parse_spec(content: Seq<u8>) -> Result<InstanceModel, ParseError> {
    parse_lines_spec(lines_of(content))
}

fn tok_is_vehicle(t: &Vec<u8>) -> (r: bool)
    ensures
        r == (t@ == kw_vehicle()),
{
    let r = t.len() == 7 && t[0] == 86 && t[1] == 69 && t[2] == 72 && t[3] == 73 && t[4] == 67
        && t[5] == 76 && t[6] == 69;
    proof {
        if r {
            assert(t@ =~= kw_vehicle());
        }
    }
    r
}

fn tok_is_customer(t: &Vec<u8>) -> (r: bool)
    ensures
        r == (t@ == kw_customer()),
{
    let r = t.len() == 8 && t[0] == 67 && t[1] == 85 && t[2] == 83 && t[3] == 84 && t[4] == 79
        && t[5] == 77 && t[6] == 69 && t[7] == 82;
    proof {
        if r {
            assert(t@ =~= kw_customer());
        }
    }
    r
}

fn tok_is_number(t: &Vec<u8>) -> (r: bool)
    ensures
        r == (t@ == kw_number()),
{
    let r = t.len() == 6 && t[0] == 78 && t[1] == 85 && t[2] == 77 && t[3] == 66 && t[4] == 69
        && t[5] == 82;
    proof {
        if r {
            assert(t@ =~= kw_number());
        }
    }
    r
}

/// Parses the lines of a Solomon-format file into an instance.
pub fn parse_lines(lines: &Vec<Vec<u8>>) -> (r: Result<Instance, ParseError>)
    ensures
        (match r {
            Result::Ok(inst) => parse_lines_spec(seq_views(lines@)) == Result::<
                InstanceModel,
                ParseError,
            >::Ok(inst@) && inst@.wf(),
            Result::Err(e) => parse_lines_spec(seq_views(lines@)) == Result::<
                InstanceModel,
                ParseError,
            >::Err(e),
        }),
{
    let ghost lv = seq_views(lines@);
    let mut section = Section::Outside;
    let mut vehicle: Option<(usize, usize)> = Option::None;
    let mut customers: Vec<Customer> = Vec::new();
    let mut error: Option<ParseError> = Option::None;
    let mut i: usize = 0;
    while i < lines.len()
        invariant
            i <= lines.len(),
            lv == seq_views(lines@),
            lv.len() == lines.len(),
            state_after(lv, i as int).section == section,
            state_after(lv, i as int).vehicle == vehicle,
            state_after(lv, i as int).customers == customers@,
            state_after(lv, i as int).error == error,
        decreases lines.len() - i,
    {
        let ghost pre = state_after(lv, i as int);
        let line = &lines[i];
        proof {
            assert(lv[i as int] == lines@[i as int]@);
        }
        if error.is_none() {
            let toks = split_ws(line);
            let ghost tv = tokens_of(line@);
            let n_toks = toks.len();
            proof {
                assert(tv.len() == toks@.len());
            }
            if n_toks == 0 {
            } else {
                let veh_kw = tok_is_vehicle(&toks[0]);
                let cust_kw = tok_is_customer(&toks[0]);
                proof {
                    assert(tv[0] == toks@[0]@);
                    if veh_kw && n_toks == 1 {
                        assert(tv =~= seq![kw_vehicle()]);
                    }
                    if cust_kw && n_toks == 1 {
                        assert(tv =~= seq![kw_customer()]);
                    }
                    if tv == seq![kw_vehicle()] {
                        assert(tv.len() == 1 && tv[0] == kw_vehicle());
                    }
                    if tv == seq![kw_customer()] {
                        assert(tv.len() == 1 && tv[0] == kw_customer());
                    }
                }
                if n_toks == 1 && veh_kw {
                    section = Section::InVehicle;
                } else if n_toks == 1 && cust_kw {
                    section = Section::InCustomer;
                } else {
                    match section {
                        Section::Outside => {},
                        Section::InVehicle => {
                            if n_toks == 2 {
                                proof {
                                    assert(tv[1] == toks@[1]@);
                                }
                                if tok_is_number(&toks[0]) {
                                } else {
                                    let a = parse_usize(toks[0].as_slice());
                                    let b = parse_usize(toks[1].as_slice());
                                    match (a, b) {
                                        (Option::Some(nv), Option::Some(cap)) => {
                                            vehicle = Option::Some((nv, cap));
                                            section = Section::Outside;
                                        },
                                        _ => {
                                            error = Option::Some(
                                                ParseError::MalformedField { line: i },
                                            );
                                        },
                                    }
                                }
                            }
                        },
                        Section::InCustomer => {
                            if n_toks == 7 {
                                proof {
                                    assert(tv[1] == toks@[1]@);
                                    assert(tv[2] == toks@[2]@);
                                    assert(tv[3] == toks@[3]@);
                                    assert(tv[4] == toks@[4]@);
                                    assert(tv[5] == toks@[5]@);
                                    assert(tv[6] == toks@[6]@);
                                }
                                let p0 = parse_usize(toks[0].as_slice());
                                let p1 = parse_usize(toks[1].as_slice());
                                let p2 = parse_usize(toks[2].as_slice());
                                let p3 = parse_usize(toks[3].as_slice());
                                let p4 = parse_usize(toks[4].as_slice());
                                let p5 = parse_usize(toks[5].as_slice());
                                let p6 = parse_usize(toks[6].as_slice());
                                match (p0, p1, p2, p3, p4, p5, p6) {
                                    (
                                        Option::Some(id),
                                        Option::Some(x),
                                        Option::Some(y),
                                        Option::Some(demand),
                                        Option::Some(ready_time),
                                        Option::Some(due_date),
                                        Option::Some(service_time),
                                    ) => {
                                        customers.push(
                                            Customer {
                                                id,
                                                x,
                                                y,
                                                demand,
                                                ready_time,
                                                due_date,
                                                service_time,
                                            },
                                        );
                                        proof {
                                            assert(customer_line_fits(tv));
                                        }
                                    },
                                    _ => {
                                        error = Option::Some(
                                            ParseError::MalformedField { line: i },
                                        );
                                    },
                                }
                            }
                        },
                    }
                }
            }
        }
        proof {
            assert(state_after(lv, i as int + 1) == step(pre, lv[i as int], i));
            let post = step(pre, lv[i as int], i);
            assert(post.section == section && post.vehicle == vehicle && post.customers
                == customers@ && post.error == error);
        }
        i = i + 1;
    }
    let ghost st = state_after(lv, lv.len() as int);
    if let Option::Some(e) = error {
        return Result::Err(e);
    }
    match vehicle {
        Option::None => Result::Err(ParseError::StructuralViolation),
        Option::Some((nv, cap)) => {
            if nv == 0 || cap == 0 || customers.len() == 0 {
                return Result::Err(ParseError::StructuralViolation);
            }
            let ghost cs = customers@;
            let n = customers.len();
            let mut depot_copy = customers[0];
            depot_copy.id = n;
            let start_id = customers[0].id;
            customers.push(depot_copy);
            let inst = Instance {
                vehicle_count: nv,
                vehicle_capacity: cap,
                stops: customers,
                start_depot_id: start_id,
                end_depot_id: n,
            };
            proof {
                assert(depot_copy == end_depot_of(cs));
                assert(inst@ =~= instance_model(nv, cap, cs));
                assert(finish(st) == Result::<InstanceModel, ParseError>::Ok(
                    instance_model(nv, cap, cs),
                ));
                assert(inst@.wf());
            }
            Result::Ok(inst)
        },
    }
}

/// Parses the raw bytes of a Solomon-format file into an instance.
pub fn parse_bytes(content: &[u8]) -> (r: Result<Instance, ParseError>)
    ensures
        (match r {
            Result::Ok(inst) => parse_spec(content@) == Result::<InstanceModel, ParseError>::Ok(
                inst@,
            ) && inst@.wf(),
            Result::Err(e) => parse_spec(content@) == Result::<InstanceModel, ParseError>::Err(e),
        }),
{
    let lines = split_lines(content);
    parse_lines(&lines)
}

} // verus!
