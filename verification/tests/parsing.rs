use solomon_reader::parse_bytes;
use solomon_reader::parse_lines;
use solomon_reader::ParseError;

fn to_lines(ls: &[&str]) -> Vec<Vec<u8>> {
    ls.iter().map(|s| s.as_bytes().to_vec()).collect()
}

#[test]
fn parses_minimal_instance() {
    let file = "C101\n\nVEHICLE\nNUMBER     CAPACITY\n2 10\n\nCUSTOMER\nCUST NO. XCOORD. YCOORD. DEMAND READY TIME DUE DATE SERVICE TIME\n\n0 40 50 0 0 1236 0\n1 45 68 10 912 967 90\n";
    let inst = parse_bytes(file.as_bytes()).unwrap();
    assert_eq!(inst.vehicle_count, 2);
    assert_eq!(inst.vehicle_capacity, 10);
    assert_eq!(inst.stops.len(), 3);
    assert_eq!(inst.stops[0].id, 0);
    assert_eq!(inst.stops[1].id, 1);
    assert_eq!(inst.stops[1].demand, 10);
    assert_eq!(inst.stops[1].ready_time, 912);
    assert_eq!(inst.stops[1].due_date, 967);
    assert_eq!(inst.stops[1].service_time, 90);
    assert_eq!(inst.start_depot_id, 0);
    assert_eq!(inst.end_depot_id, 2);
}

#[test]
fn end_depot_copies_the_depot_record() {
    let file = "VEHICLE\n3 100\nCUSTOMER\n7 40 50 0 0 1236 11\n9 45 68 10 912 967 90\n";
    let inst = parse_bytes(file.as_bytes()).unwrap();
    assert_eq!(inst.stops.len(), 3);
    let depot = &inst.stops[0];
    let end = &inst.stops[2];
    assert_eq!(end.id, 2);
    assert_eq!(end.x, depot.x);
    assert_eq!(end.y, depot.y);
    assert_eq!(end.demand, depot.demand);
    assert_eq!(end.ready_time, depot.ready_time);
    assert_eq!(end.due_date, depot.due_date);
    assert_eq!(end.service_time, depot.service_time);
    assert_eq!(inst.start_depot_id, 7);
    assert_eq!(inst.end_depot_id, 2);
}

#[test]
fn hundred_customer_instance() {
    let mut file = String::from("VEHICLE\nNUMBER     CAPACITY\n25 200\n\nCUSTOMER\n");
    for id in 0..=100 {
        file.push_str(&format!("{} {} {} {} {} {} {}\n", id, id + 1, id + 2, 5, 0, 1000, 10));
    }
    let inst = parse_bytes(file.as_bytes()).unwrap();
    assert_eq!(inst.vehicle_count, 25);
    assert_eq!(inst.vehicle_capacity, 200);
    assert_eq!(inst.stops.len(), 102);
    assert_eq!(inst.start_depot_id, inst.stops.first().unwrap().id);
    assert_eq!(inst.end_depot_id, inst.stops.last().unwrap().id);
    assert_eq!(inst.start_depot_id, 0);
    assert_eq!(inst.end_depot_id, 101);
}

#[test]
fn all_ids_distinct_in_result() {
    let mut file = String::from("VEHICLE\n5 50\nCUSTOMER\n");
    for id in 0..=10 {
        file.push_str(&format!("{} 1 2 3 4 5 6\n", id));
    }
    let inst = parse_bytes(file.as_bytes()).unwrap();
    for i in 0..inst.stops.len() {
        for j in (i + 1)..inst.stops.len() {
            assert_ne!(inst.stops[i].id, inst.stops[j].id);
        }
    }
}

#[test]
fn missing_vehicle_section_is_structural() {
    let file = "CUSTOMER\n0 40 50 0 0 1236 0\n1 45 68 10 912 967 90\n";
    let err = parse_bytes(file.as_bytes()).unwrap_err();
    assert_eq!(err, ParseError::StructuralViolation);
}

#[test]
fn zero_vehicle_count_is_structural() {
    let file = "VEHICLE\n0 200\nCUSTOMER\n0 40 50 0 0 1236 0\n";
    let err = parse_bytes(file.as_bytes()).unwrap_err();
    assert_eq!(err, ParseError::StructuralViolation);
}

#[test]
fn zero_capacity_is_structural() {
    let file = "VEHICLE\n10 0\nCUSTOMER\n0 40 50 0 0 1236 0\n";
    let err = parse_bytes(file.as_bytes()).unwrap_err();
    assert_eq!(err, ParseError::StructuralViolation);
}

#[test]
fn no_customer_records_is_structural() {
    let file = "VEHICLE\n25 200\nCUSTOMER\nCUST NO. AND SO ON\n";
    let err = parse_bytes(file.as_bytes()).unwrap_err();
    assert_eq!(err, ParseError::StructuralViolation);
}

#[test]
fn empty_file_is_structural() {
    let err = parse_bytes(b"").unwrap_err();
    assert_eq!(err, ParseError::StructuralViolation);
}

#[test]
fn malformed_customer_field_names_the_line() {
    let file = "VEHICLE\n25 200\nCUSTOMER\n1 a 3 4 5 6 7\n";
    let err = parse_bytes(file.as_bytes()).unwrap_err();
    assert_eq!(err, ParseError::MalformedField { line: 3 });
}

#[test]
fn malformed_vehicle_field_names_the_line() {
    let file = "VEHICLE\nx y\n";
    let err = parse_bytes(file.as_bytes()).unwrap_err();
    assert_eq!(err, ParseError::MalformedField { line: 1 });
}

#[test]
fn overflowing_customer_field_is_malformed() {
    let file = "VEHICLE\n25 200\nCUSTOMER\n0 1 2 3 4 99999999999999999999999999999999 6\n";
    let err = parse_bytes(file.as_bytes()).unwrap_err();
    assert_eq!(err, ParseError::MalformedField { line: 3 });
}

#[test]
fn number_header_line_is_skipped() {
    let file = "VEHICLE\nNUMBER CAPACITY\n4 30\nCUSTOMER\n0 1 2 3 4 5 6\n";
    let inst = parse_bytes(file.as_bytes()).unwrap();
    assert_eq!(inst.vehicle_count, 4);
    assert_eq!(inst.vehicle_capacity, 30);
}

#[test]
fn vehicle_section_reads_one_data_line() {
    let file = "VEHICLE\n25 200\n30 300\nCUSTOMER\n0 1 2 3 4 5 6\n";
    let inst = parse_bytes(file.as_bytes()).unwrap();
    assert_eq!(inst.vehicle_count, 25);
    assert_eq!(inst.vehicle_capacity, 200);
}

#[test]
fn customer_lines_with_other_token_counts_are_skipped() {
    let file = "VEHICLE\n2 10\nCUSTOMER\nheader row\n0 40 50 0 0 1236 0\nanother header with several extra tokens in it\n1 45 68 10 912 967 90\n";
    let inst = parse_bytes(file.as_bytes()).unwrap();
    assert_eq!(inst.stops.len(), 3);
}

#[test]
fn data_lines_outside_sections_are_ignored() {
    let file = "1 2 3 4 5 6 7\n9 9\nVEHICLE\n2 10\n7 7 7 7 7 7 7\nCUSTOMER\n0 40 50 0 0 1236 0\n";
    let inst = parse_bytes(file.as_bytes()).unwrap();
    assert_eq!(inst.vehicle_count, 2);
    assert_eq!(inst.stops.len(), 2);
}

#[test]
fn section_keywords_match_whole_lines_only() {
    let file = "VEHICLE FLEET\n2 10\nCUSTOMER\n0 40 50 0 0 1236 0\n";
    let err = parse_bytes(file.as_bytes()).unwrap_err();
    assert_eq!(err, ParseError::StructuralViolation);
}

#[test]
fn carriage_returns_are_tolerated() {
    let file = "VEHICLE\r\n2 10\r\nCUSTOMER\r\n0 40 50 0 0 1236 0\r\n";
    let inst = parse_bytes(file.as_bytes()).unwrap();
    assert_eq!(inst.vehicle_count, 2);
    assert_eq!(inst.vehicle_capacity, 10);
    assert_eq!(inst.stops.len(), 2);
}

#[test]
fn reparsing_is_deterministic() {
    let file = "VEHICLE\n2 10\nCUSTOMER\n0 40 50 0 0 1236 0\n1 45 68 10 912 967 90\n";
    let first = parse_bytes(file.as_bytes()).unwrap();
    let second = parse_bytes(file.as_bytes()).unwrap();
    assert_eq!(first, second);
}

#[test]
fn parse_lines_matches_parse_bytes() {
    let ls = to_lines(&["VEHICLE", "2 10", "CUSTOMER", "0 40 50 0 0 1236 0"]);
    let from_lines = parse_lines(&ls).unwrap();
    let from_bytes = parse_bytes(b"VEHICLE\n2 10\nCUSTOMER\n0 40 50 0 0 1236 0\n").unwrap();
    assert_eq!(from_lines, from_bytes);
}

#[test]
fn plus_signed_fields_are_accepted() {
    let file = "VEHICLE\n+2 +10\nCUSTOMER\n+0 +40 +50 +0 +0 +1236 +0\n";
    let inst = parse_bytes(file.as_bytes()).unwrap();
    assert_eq!(inst.vehicle_count, 2);
    assert_eq!(inst.vehicle_capacity, 10);
    assert_eq!(inst.stops.len(), 2);
}

#[test]
fn negative_customer_field_is_malformed() {
    let file = "VEHICLE\n2 10\nCUSTOMER\n0 -40 50 0 0 1236 0\n";
    let err = parse_bytes(file.as_bytes()).unwrap_err();
    assert_eq!(err, ParseError::MalformedField { line: 3 });
}
