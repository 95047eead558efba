use camview::catalog::{
    build_catalog, control_is_well_formed, sort_combos, Control, ControlDomain, DeviceDescriptor,
    ResolutionRates,
};
use camview::format::{all_frame_format_kinds, FrameFormatKind, Resolution};
use camview::selector::IndexKind;

fn rr(width: u32, height: u32, rates: Vec<u32>) -> ResolutionRates {
    ResolutionRates { resolution: Resolution { width, height }, rates }
}

#[test]
fn sort_orders_by_width_then_height() {
    let combos = vec![
        rr(640, 480, vec![30]),
        rr(320, 240, vec![30, 60]),
        rr(1280, 720, vec![24]),
        rr(640, 360, vec![30]),
    ];
    let sorted = sort_combos(combos);
    let resolutions: Vec<(u32, u32)> = sorted
        .iter()
        .map(|e| (e.resolution.width, e.resolution.height))
        .collect();
    assert_eq!(resolutions, vec![(320, 240), (640, 360), (640, 480), (1280, 720)]);
}

#[test]
fn sort_keeps_rate_sets_with_their_resolution() {
    let combos = vec![rr(800, 600, vec![15, 30]), rr(160, 120, vec![90])];
    let sorted = sort_combos(combos);
    assert_eq!(sorted[0].resolution, Resolution { width: 160, height: 120 });
    assert_eq!(sorted[0].rates, vec![90]);
    assert_eq!(sorted[1].resolution, Resolution { width: 800, height: 600 });
    assert_eq!(sorted[1].rates, vec![15, 30]);
}

#[test]
fn catalog_ten_combinations_across_two_kinds() {
    // Ten (format, resolution, frame-rate) combinations over two kinds, with
    // a third kind reporting nothing: exactly two entries come out, in query
    // order, each sorted ascending with no duplicate resolutions.
    let yuyv = vec![
        rr(640, 480, vec![30]),
        rr(320, 240, vec![30]),
        rr(1280, 720, vec![24]),
        rr(640, 360, vec![30]),
        rr(160, 120, vec![90]),
        rr(320, 180, vec![60]),
    ];
    let mjpeg = vec![
        rr(1920, 1080, vec![30]),
        rr(1280, 720, vec![60]),
        rr(640, 480, vec![120]),
        rr(800, 600, vec![30]),
    ];
    let results = vec![
        (FrameFormatKind::Yuyv, yuyv),
        (FrameFormatKind::Gray, Vec::new()),
        (FrameFormatKind::Mjpeg, mjpeg),
    ];
    let catalog = build_catalog(results);
    assert_eq!(catalog.len(), 2);
    assert_eq!(catalog[0].kind, FrameFormatKind::Yuyv);
    assert_eq!(catalog[1].kind, FrameFormatKind::Mjpeg);
    for entry in &catalog {
        assert!(!entry.combos.is_empty());
        for pair in entry.combos.windows(2) {
            let a = &pair[0].resolution;
            let b = &pair[1].resolution;
            assert!(a.width < b.width || (a.width == b.width && a.height < b.height));
            assert_ne!((a.width, a.height), (b.width, b.height));
        }
    }
    assert_eq!(catalog[0].combos.len(), 6);
    assert_eq!(catalog[1].combos.len(), 4);
    let first: Vec<(u32, u32)> = catalog[0]
        .combos
        .iter()
        .map(|e| (e.resolution.width, e.resolution.height))
        .collect();
    assert_eq!(
        first,
        vec![(160, 120), (320, 180), (320, 240), (640, 360), (640, 480), (1280, 720)],
    );
}

#[test]
fn catalog_omits_empty_kinds_entirely() {
    let results = vec![
        (FrameFormatKind::Mjpeg, Vec::new()),
        (FrameFormatKind::Nv12, Vec::new()),
    ];
    let catalog = build_catalog(results);
    assert!(catalog.is_empty());
}

#[test]
fn frame_format_kinds_are_fixed_and_ordered() {
    let kinds = all_frame_format_kinds();
    assert_eq!(
        kinds,
        vec![
            FrameFormatKind::Mjpeg,
            FrameFormatKind::Yuyv,
            FrameFormatKind::Nv12,
            FrameFormatKind::Gray,
            FrameFormatKind::RawRgb,
            FrameFormatKind::RawBgr,
        ],
    );
}

#[test]
fn descriptor_identity_is_the_index_alone() {
    let a = DeviceDescriptor { index: IndexKind::Index(1), label: "Front".to_string() };
    let b = DeviceDescriptor { index: IndexKind::Index(1), label: "Back".to_string() };
    let c = DeviceDescriptor { index: IndexKind::Index(2), label: "Front".to_string() };
    assert!(a == b);
    assert!(a != c);
    let d = DeviceDescriptor { index: IndexKind::String("cam".to_string()), label: "X".to_string() };
    let e = DeviceDescriptor { index: IndexKind::String("cam".to_string()), label: "Y".to_string() };
    assert!(d == e);
    assert!(a != d);
}

#[test]
fn selector_equality() {
    assert!(IndexKind::Index(3).same_selector(&IndexKind::Index(3)));
    assert!(!IndexKind::Index(3).same_selector(&IndexKind::Index(4)));
    assert!(
        IndexKind::String("cam".to_string()).same_selector(&IndexKind::String("cam".to_string()))
    );
    assert!(
        !IndexKind::String("cam".to_string()).same_selector(&IndexKind::String("cam2".to_string()))
    );
    assert!(!IndexKind::Index(0).same_selector(&IndexKind::String("0".to_string())));
}

#[test]
fn control_well_formedness() {
    let ranged = Control {
        identifier: "Brightness".to_string(),
        name: "Brightness".to_string(),
        domain: ControlDomain::DiscreteRange { min: 0, max: 255, step: 1 },
        value: 128,
    };
    assert!(control_is_well_formed(&ranged));
    let out_of_range = Control { value: 300, ..ranged };
    assert!(!control_is_well_formed(&out_of_range));

    let toggle = Control {
        identifier: "AutoFocus".to_string(),
        name: "Auto Focus".to_string(),
        domain: ControlDomain::Boolean,
        value: 1,
    };
    assert!(control_is_well_formed(&toggle));
    let bad_toggle = Control { value: 2, ..toggle };
    assert!(!control_is_well_formed(&bad_toggle));

    let menu = Control {
        identifier: "PowerLineFrequency".to_string(),
        name: "Power Line Frequency".to_string(),
        domain: ControlDomain::Menu { choices: vec![0, 50, 60] },
        value: 50,
    };
    assert!(control_is_well_formed(&menu));
    let bad_menu = Control { value: 55, ..menu };
    assert!(!control_is_well_formed(&bad_menu));
}
