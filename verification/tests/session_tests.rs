use std::io::Cursor;
use wave_vpi::decode::{DecodeFault, DecodedValue, ValueFormat, VectorWord};
use wave_vpi::session::{QueryError, Session};

const VCD: &str = "$timescale 1ns $end
$scope module top $end
$var wire 8 ! data $end
$var reg 1 \" clk $end
$var wire 4 # fsig $end
$var wire 1 $ late $end
$var integer 32 % cnt $end
$upscope $end
$enddefinitions $end
#0
b00101010 !
0\"
bx0z1 #
b00000000000000000000000000000111 %
#10
b01000010 !
1\"
#25
0\"
1$
";

fn load_session() -> Session {
    let opts = wellen::LoadOptions { multi_thread: false, remove_scopes_with_empty_name: false };
    let header =
        wellen::viewers::read_header(Cursor::new(VCD.as_bytes().to_vec()), &opts).expect("header");
    let hierarchy = header.hierarchy;
    let body = wellen::viewers::read_body(header.body, &hierarchy, None).expect("body");
    Session::new(body.time_table, hierarchy, body.source).expect("ordered time table")
}

#[test]
fn resolves_a_name_and_decodes_its_value() {
    let mut s = load_session();
    let h = s.resolve(&"top.data".to_string()).expect("known name");
    match s.value_at_index(h, 0, ValueFormat::Integer) {
        Ok(DecodedValue::Integer(n)) => assert_eq!(n, 42),
        other => panic!("unexpected: {:?}", other),
    }
    match s.value_at_index(h, 0, ValueFormat::BinaryString) {
        Ok(DecodedValue::Text(t)) => assert_eq!(t, "00101010"),
        other => panic!("unexpected: {:?}", other),
    }
    match s.value_at_index(h, 0, ValueFormat::HexString) {
        Ok(DecodedValue::Text(t)) => assert_eq!(t, "2a"),
        other => panic!("unexpected: {:?}", other),
    }
    match s.value_at_index(h, 0, ValueFormat::Vector) {
        Ok(DecodedValue::Vector(v)) => assert_eq!(v, vec![VectorWord { aval: 42, bval: 0 }]),
        other => panic!("unexpected: {:?}", other),
    }
}

#[test]
fn absent_name_is_a_lookup_failure_whatever_the_caches_hold() {
    let mut s = load_session();
    assert!(s.resolve(&"top.nope".to_string()).is_err());
    let _ = s.resolve(&"top.data".to_string()).expect("known name");
    assert!(s.resolve(&"top.nope".to_string()).is_err());
    s.restore_name("other.cached".to_string(), 99);
    assert!(s.resolve(&"top.nope".to_string()).is_err());
}

#[test]
fn resolving_twice_hits_the_cache_and_keeps_one_entry() {
    let mut s = load_session();
    let h1 = s.resolve(&"top.clk".to_string()).expect("known name");
    assert_eq!(s.ref_count(), 1);
    assert!(s.has_new_refs);
    let h2 = s.resolve(&"top.clk".to_string()).expect("cached name");
    assert_eq!(h1, h2);
    assert_eq!(s.ref_count(), 1);
}

#[test]
fn last_known_value_semantics_between_transitions() {
    let mut s = load_session();
    let h = s.resolve(&"top.data".to_string()).expect("known name");
    let t1 = s.time_from_index(1);
    match s.value_at_time(h, t1 + 1, ValueFormat::Integer) {
        Ok(DecodedValue::Integer(n)) => assert_eq!(n, 0x42),
        other => panic!("unexpected: {:?}", other),
    }
    let t0 = s.time_from_index(0);
    match s.value_at_time(h, t0, ValueFormat::Integer) {
        Ok(DecodedValue::Integer(n)) => assert_eq!(n, 42),
        other => panic!("unexpected: {:?}", other),
    }
}

#[test]
fn table_accessors_cover_all_recorded_steps() {
    let s = load_session();
    assert_eq!(s.max_index(), 2);
    let t0 = s.time_from_index(0);
    let t2 = s.time_from_index(s.max_index());
    assert!(t0 < t2);
    assert_eq!(s.index_from_time(t2), 2);
    assert_eq!(s.index_from_time(t2.saturating_add(1000)), 2);
    assert_eq!(s.index_from_time(t0), 0);
}

#[test]
fn properties_of_resolved_variables() {
    let mut s = load_session();
    let data = s.resolve(&"top.data".to_string()).expect("known name");
    let clk = s.resolve(&"top.clk".to_string()).expect("known name");
    assert_eq!(s.bit_width(data), Ok(8));
    assert_eq!(s.bit_width(clk), Ok(1));
    assert_eq!(s.kind_label(data).unwrap(), "vpiNet");
    assert_eq!(s.kind_label(clk).unwrap(), "vpiReg");
}

#[test]
fn four_state_paths() {
    let mut s = load_session();
    let h = s.resolve(&"top.fsig".to_string()).expect("known name");
    assert_eq!(s.bit_string_at(h, 0).unwrap(), "x0z1");
    match s.value_at_index(h, 0, ValueFormat::Integer) {
        Ok(DecodedValue::Integer(n)) => assert_eq!(n, 0),
        other => panic!("unexpected: {:?}", other),
    }
    match s.value_at_index(h, 0, ValueFormat::Vector) {
        Ok(DecodedValue::Vector(v)) => assert_eq!(v, vec![VectorWord { aval: 0, bval: 0 }]),
        other => panic!("unexpected: {:?}", other),
    }
    assert_eq!(
        s.value_at_index(h, 0, ValueFormat::HexString),
        Err(QueryError::Fault(DecodeFault::UnsupportedFormat))
    );
}

#[test]
fn two_state_bit_string_query() {
    let mut s = load_session();
    let h = s.resolve(&"top.data".to_string()).expect("known name");
    assert_eq!(s.bit_string_at(h, 0).unwrap(), "00101010");
    assert_eq!(s.bit_string_at(h, 1).unwrap(), "01000010");
}

#[test]
fn fabricated_handle_is_unknown() {
    let s = load_session();
    assert_eq!(
        s.value_at_index(9999, 0, ValueFormat::Integer),
        Err(QueryError::UnknownHandle)
    );
    assert_eq!(s.bit_width(9999), Err(QueryError::UnknownHandle));
    assert!(s.kind_label(9999).is_err());
    assert!(s.bit_string_at(9999, 0).is_err());
}

#[test]
fn signal_without_early_samples_yields_no_sample() {
    let mut s = load_session();
    let h = s.resolve(&"top.late".to_string()).expect("known name");
    assert_eq!(s.value_at_index(h, 0, ValueFormat::Integer), Err(QueryError::NoSample));
    match s.value_at_index(h, 2, ValueFormat::Integer) {
        Ok(DecodedValue::Integer(n)) => assert_eq!(n, 1),
        other => panic!("unexpected: {:?}", other),
    }
}

#[test]
fn restored_name_resolves_without_the_hierarchy() {
    let mut s = load_session();
    s.restore_name("ghost.sig".to_string(), 777);
    assert_eq!(s.resolve(&"ghost.sig".to_string()), Ok(777));
    assert!(!s.has_new_refs);
    assert_eq!(
        s.value_at_index(777, 0, ValueFormat::Integer),
        Err(QueryError::UnknownHandle)
    );
}

#[test]
fn restoring_a_cached_name_keeps_the_first_reference() {
    let mut s = load_session();
    s.restore_name("a.b".to_string(), 1);
    s.restore_name("a.b".to_string(), 2);
    assert_eq!(s.ref_count(), 1);
    assert_eq!(s.resolve(&"a.b".to_string()), Ok(1));
}

#[test]
fn fresh_session_never_persists_below_threshold() {
    let mut s = load_session();
    assert!(!s.persist_at_finalize());
    let _ = s.resolve(&"top.data".to_string()).expect("known name");
    assert!(s.has_new_refs);
    assert!(!s.persist_at_finalize());
}

#[test]
fn persistence_fires_at_threshold_with_new_references() {
    let mut s = load_session();
    for i in 0..15u64 {
        s.restore_name(format!("restored.v{}", i), i);
    }
    assert!(!s.persist_at_finalize());
    let _ = s.resolve(&"top.data".to_string()).expect("known name");
    assert_eq!(s.ref_count(), 16);
    assert!(s.persist_at_finalize());
}

#[test]
fn unordered_time_table_is_refused() {
    let opts = wellen::LoadOptions { multi_thread: false, remove_scopes_with_empty_name: false };
    let header =
        wellen::viewers::read_header(Cursor::new(VCD.as_bytes().to_vec()), &opts).expect("header");
    let hierarchy = header.hierarchy;
    let body = wellen::viewers::read_body(header.body, &hierarchy, None).expect("body");
    assert!(Session::new(vec![5, 3, 9], hierarchy, body.source).is_none());
}

#[test]
fn kind_label_of_unsupported_variable_kind_is_refused() {
    let mut s = load_session();
    let h = s.resolve(&"top.cnt".to_string()).expect("known name");
    assert_eq!(s.kind_label(h), Err(QueryError::UnsupportedProperty));
    assert_eq!(s.bit_width(h), Ok(32));
    match s.value_at_index(h, 0, ValueFormat::Integer) {
        Ok(DecodedValue::Integer(n)) => assert_eq!(n, 7),
        other => panic!("unexpected: {:?}", other),
    }
}
