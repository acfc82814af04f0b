use svg_core::ids::SvgLayerId;

#[test]
fn __codecov_test_widget_svg_file() {}

#[test]
fn layer_ids_order_by_value() {
    assert!(SvgLayerId(1) < SvgLayerId(2));
    assert_eq!(SvgLayerId(7), SvgLayerId(7));
}
