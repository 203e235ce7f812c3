use modtool::pretty::{indent, PrettyFormatter2};

fn emit(out: &mut Vec<u8>, bytes: Vec<u8>) {
    out.extend_from_slice(&bytes);
}

#[test]
fn indent_repeats_unit() {
    assert_eq!(indent(3, b"  "), b"      ".to_vec());
    assert_eq!(indent(0, b"  "), Vec::<u8>::new());
    assert_eq!(indent(2, b"\t"), b"\t\t".to_vec());
}

#[test]
fn array_groups_sixteen_items_per_line() {
    let mut f = PrettyFormatter2::new();
    let mut out: Vec<u8> = Vec::new();
    emit(&mut out, f.begin_array());
    for i in 0..17 {
        emit(&mut out, f.begin_array_value(i == 0));
        out.push(b'0');
        emit(&mut out, f.end_array_value());
    }
    emit(&mut out, f.end_array());
    let expected = "[\n  0, 0, 0, 0, 0, 0, 0, 0, 0, 0, 0, 0, 0, 0, 0, 0,\n  0\n]";
    assert_eq!(String::from_utf8(out).unwrap(), expected);
}

#[test]
fn empty_array_stays_flat() {
    let mut f = PrettyFormatter2::new();
    let mut out: Vec<u8> = Vec::new();
    emit(&mut out, f.begin_array());
    emit(&mut out, f.end_array());
    assert_eq!(String::from_utf8(out).unwrap(), "[]");
}

#[test]
fn empty_object_stays_flat() {
    let mut f = PrettyFormatter2::new();
    let mut out: Vec<u8> = Vec::new();
    emit(&mut out, f.begin_object());
    emit(&mut out, f.end_object());
    assert_eq!(String::from_utf8(out).unwrap(), "{}");
}

#[test]
fn object_keys_each_start_a_line() {
    let mut f = PrettyFormatter2::new();
    let mut out: Vec<u8> = Vec::new();
    emit(&mut out, f.begin_object());
    emit(&mut out, f.begin_object_key(true));
    out.extend_from_slice(b"\"a\"");
    emit(&mut out, f.begin_object_value());
    out.push(b'1');
    emit(&mut out, f.end_object_value());
    emit(&mut out, f.begin_object_key(false));
    out.extend_from_slice(b"\"b\"");
    emit(&mut out, f.begin_object_value());
    out.push(b'2');
    emit(&mut out, f.end_object_value());
    emit(&mut out, f.end_object());
    assert_eq!(String::from_utf8(out).unwrap(), "{\n  \"a\": 1,\n  \"b\": 2\n}");
}

#[test]
fn nested_array_indents_by_level() {
    let mut f = PrettyFormatter2::new();
    let mut out: Vec<u8> = Vec::new();
    emit(&mut out, f.begin_array());
    emit(&mut out, f.begin_array_value(true));
    emit(&mut out, f.begin_array());
    emit(&mut out, f.begin_array_value(true));
    out.push(b'7');
    emit(&mut out, f.end_array_value());
    emit(&mut out, f.end_array());
    emit(&mut out, f.end_array_value());
    emit(&mut out, f.end_array());
    assert_eq!(String::from_utf8(out).unwrap(), "[\n  [\n    7\n  ]\n]");
}

#[test]
fn custom_indent_unit_is_used() {
    let unit = b"    ";
    let mut f = PrettyFormatter2::with_indent(unit);
    let mut out: Vec<u8> = Vec::new();
    emit(&mut out, f.begin_object());
    emit(&mut out, f.begin_object_key(true));
    out.extend_from_slice(b"\"k\"");
    emit(&mut out, f.begin_object_value());
    out.push(b'0');
    emit(&mut out, f.end_object_value());
    emit(&mut out, f.end_object());
    assert_eq!(String::from_utf8(out).unwrap(), "{\n    \"k\": 0\n}");
}

#[test]
fn formatter_depth_tracks_nesting() {
    let mut f = PrettyFormatter2::new();
    assert_eq!(f.depth(), 0);
    let _ = f.begin_array();
    let _ = f.begin_object();
    assert_eq!(f.depth(), 2);
    let _ = f.end_object();
    let _ = f.end_array();
    assert_eq!(f.depth(), 0);
}
