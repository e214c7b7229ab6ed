use neovm_core::value::{Flow, Value};
use neovm_core::xml::{
    builtin_libxml_available_p, builtin_libxml_parse_html_region, builtin_libxml_parse_xml_region,
    builtin_zlib_available_p, builtin_zlib_decompress_region, html_parse_fallback,
};

fn nums(ns: &[i64]) -> Vec<Value> {
    ns.iter().map(|n| Value::fixnum(*n)).collect()
}

#[test]
fn zlib_decompress_region_arity_and_type_validation() {
    let arity = builtin_zlib_decompress_region(&vec![]);
    assert!(arity.is_err());

    let too_many = builtin_zlib_decompress_region(&vec![
        Value::fixnum(1),
        Value::fixnum(1),
        Value::Nil,
        Value::Nil,
    ]);
    assert!(too_many.is_err());

    let bad_type = builtin_zlib_decompress_region(&vec![Value::string("x"), Value::fixnum(1)]);
    assert!(bad_type.is_err());
}

#[test]
fn zlib_decompress_region_signals_unibyte_requirement() {
    let result = builtin_zlib_decompress_region(&nums(&[1, 1]))
        .expect_err("must signal error in multibyte buffers");
    match result {
        Flow::Signal(sig) => {
            assert_eq!(sig.symbol_name(), "error");
            assert_eq!(
                sig.data,
                Value::list(vec![Value::string(
                    "This function can be called only in unibyte buffers"
                )])
            );
        }
    }
}

#[test]
fn libxml_parse_xml_region_arity_and_type_subset() {
    assert_eq!(
        builtin_libxml_parse_xml_region(&vec![]).unwrap(),
        Value::Nil
    );
    assert_eq!(
        builtin_libxml_parse_xml_region(&vec![Value::Nil]).unwrap(),
        Value::Nil
    );
    assert_eq!(
        builtin_libxml_parse_xml_region(&nums(&[1, 1])).unwrap(),
        Value::Nil
    );
    assert_eq!(
        builtin_libxml_parse_xml_region(&vec![Value::Nil, Value::fixnum(1)]).unwrap(),
        Value::Nil
    );

    let wrong_type =
        builtin_libxml_parse_xml_region(&vec![Value::string("x"), Value::fixnum(1)]).unwrap_err();
    match wrong_type {
        Flow::Signal(sig) => {
            assert_eq!(sig.symbol_name(), "wrong-type-argument");
            assert_eq!(
                sig.data,
                Value::list(vec![
                    Value::symbol("integer-or-marker-p"),
                    Value::string("x")
                ])
            );
        }
    }
    let wrong_base = builtin_libxml_parse_xml_region(&nums(&[1, 2, 1])).unwrap_err();
    match wrong_base {
        Flow::Signal(sig) => {
            assert_eq!(sig.symbol_name(), "wrong-type-argument");
            assert_eq!(
                sig.data,
                Value::list(vec![Value::symbol("stringp"), Value::fixnum(1)])
            );
        }
    }

    let wrong_arity = builtin_libxml_parse_xml_region(&vec![
        Value::fixnum(1),
        Value::fixnum(1),
        Value::Nil,
        Value::Nil,
        Value::Nil,
    ])
    .unwrap_err();
    match wrong_arity {
        Flow::Signal(sig) => {
            assert_eq!(sig.symbol_name(), "wrong-number-of-arguments");
            assert_eq!(
                sig.data,
                Value::list(vec![
                    Value::symbol("libxml-parse-xml-region"),
                    Value::fixnum(5)
                ])
            );
        }
    }
}

#[test]
fn libxml_parse_html_region_arity_and_type_subset() {
    assert_eq!(
        builtin_libxml_parse_html_region(&vec![]).unwrap(),
        html_parse_fallback("libxml-parse-html-region", &vec![])
    );
    assert_eq!(
        builtin_libxml_parse_html_region(&vec![Value::Nil]).unwrap(),
        html_parse_fallback("libxml-parse-html-region", &vec![Value::Nil])
    );
    assert_eq!(
        builtin_libxml_parse_html_region(&nums(&[1])).unwrap(),
        html_parse_fallback("libxml-parse-html-region", &nums(&[1]))
    );
    assert_eq!(
        builtin_libxml_parse_html_region(&vec![Value::fixnum(1), Value::Nil]).unwrap(),
        html_parse_fallback(
            "libxml-parse-html-region",
            &vec![Value::fixnum(1), Value::Nil]
        )
    );
    assert_eq!(
        builtin_libxml_parse_html_region(&vec![Value::Nil, Value::fixnum(1)]).unwrap(),
        Value::Nil
    );
    assert_eq!(
        builtin_libxml_parse_html_region(&nums(&[1, 1])).unwrap(),
        Value::Nil
    );
    assert_eq!(
        builtin_libxml_parse_html_region(&nums(&[1, 2])).unwrap(),
        html_parse_fallback("libxml-parse-html-region", &nums(&[1, 2]))
    );

    let wrong_type =
        builtin_libxml_parse_html_region(&vec![Value::string("x"), Value::fixnum(1)]).unwrap_err();
    match wrong_type {
        Flow::Signal(sig) => {
            assert_eq!(sig.symbol_name(), "wrong-type-argument");
            assert_eq!(
                sig.data,
                Value::list(vec![
                    Value::symbol("integer-or-marker-p"),
                    Value::string("x")
                ])
            );
        }
    }
    let wrong_base = builtin_libxml_parse_html_region(&nums(&[1, 2, 1])).unwrap_err();
    match wrong_base {
        Flow::Signal(sig) => {
            assert_eq!(sig.symbol_name(), "wrong-type-argument");
            assert_eq!(
                sig.data,
                Value::list(vec![Value::symbol("stringp"), Value::fixnum(1)])
            );
        }
    }

    let wrong_arity = builtin_libxml_parse_html_region(&vec![
        Value::fixnum(1),
        Value::fixnum(1),
        Value::Nil,
        Value::Nil,
        Value::Nil,
    ])
    .unwrap_err();
    match wrong_arity {
        Flow::Signal(sig) => {
            assert_eq!(sig.symbol_name(), "wrong-number-of-arguments");
            assert_eq!(
                sig.data,
                Value::list(vec![
                    Value::symbol("libxml-parse-html-region"),
                    Value::fixnum(5)
                ])
            );
        }
    }
}

#[test]
fn html_envelope_holds_the_name_or_a_parenthesis() {
    let no_region = html_parse_fallback("f", &vec![]);
    assert_eq!(
        no_region,
        Value::list3(
            Value::symbol("html"),
            Value::Nil,
            Value::list3(Value::symbol("body"), Value::Nil, Value::string("(f)")),
        )
    );
    let region = html_parse_fallback("f", &nums(&[1, 2]));
    assert_eq!(
        region,
        Value::list3(
            Value::symbol("html"),
            Value::Nil,
            Value::list3(Value::symbol("body"), Value::Nil, Value::string("(")),
        )
    );
}

#[test]
fn marker_positions_are_accepted_and_detached_markers_are_not() {
    let here = Value::Marker(Some("b".to_string()), Some(3));
    assert_eq!(
        builtin_libxml_parse_html_region(&vec![here, Value::fixnum(3)]).unwrap(),
        Value::Nil
    );
    let nowhere = Value::Marker(None, None);
    match builtin_libxml_parse_xml_region(&vec![nowhere]).unwrap_err() {
        Flow::Signal(sig) => {
            assert_eq!(sig.symbol_name(), "error");
            assert_eq!(
                sig.data,
                Value::list1(Value::string("Marker does not point anywhere"))
            );
        }
    }
}

#[test]
fn availability_probes_return_true_and_validate_arity() {
    assert_eq!(builtin_libxml_available_p(&vec![]).unwrap(), Value::True);
    assert_eq!(builtin_zlib_available_p(&vec![]).unwrap(), Value::True);

    let libxml_arity = builtin_libxml_available_p(&nums(&[1])).unwrap_err();
    match libxml_arity {
        Flow::Signal(sig) => {
            assert_eq!(sig.symbol_name(), "wrong-number-of-arguments");
            assert_eq!(
                sig.data,
                Value::list(vec![Value::symbol("libxml-available-p"), Value::fixnum(1)])
            );
        }
    }

    let zlib_arity = builtin_zlib_available_p(&nums(&[1])).unwrap_err();
    match zlib_arity {
        Flow::Signal(sig) => {
            assert_eq!(sig.symbol_name(), "wrong-number-of-arguments");
            assert_eq!(
                sig.data,
                Value::list(vec![Value::symbol("zlib-available-p"), Value::fixnum(1)])
            );
        }
    }
}
