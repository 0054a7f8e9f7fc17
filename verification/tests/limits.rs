use hoshino::limits::{LimitOverrides, Limits};

#[test]
fn every_hard_ceiling_accepts_boundary_and_rejects_next_value() {
    let cases: Vec<(&str, LimitOverrides, LimitOverrides)> = vec![
        (
            "subprocess",
            LimitOverrides {
                subprocess_timeout_ms: Some(10_000),
                ..Default::default()
            },
            LimitOverrides {
                subprocess_timeout_ms: Some(10_001),
                ..Default::default()
            },
        ),
        (
            "output",
            LimitOverrides {
                subprocess_output_bytes: Some(1_048_576),
                ..Default::default()
            },
            LimitOverrides {
                subprocess_output_bytes: Some(1_048_577),
                ..Default::default()
            },
        ),
        (
            "scan",
            LimitOverrides {
                scan_max_files: Some(100_000),
                ..Default::default()
            },
            LimitOverrides {
                scan_max_files: Some(100_001),
                ..Default::default()
            },
        ),
        (
            "scan file bytes",
            LimitOverrides {
                scan_max_file_bytes: Some(16_777_216),
                ..Default::default()
            },
            LimitOverrides {
                scan_max_file_bytes: Some(16_777_217),
                ..Default::default()
            },
        ),
        (
            "scan read bytes",
            LimitOverrides {
                scan_max_read_bytes: Some(134_217_728),
                ..Default::default()
            },
            LimitOverrides {
                scan_max_read_bytes: Some(134_217_729),
                ..Default::default()
            },
        ),
        (
            "scan elapsed",
            LimitOverrides {
                scan_elapsed_ms: Some(10_000),
                ..Default::default()
            },
            LimitOverrides {
                scan_elapsed_ms: Some(10_001),
                ..Default::default()
            },
        ),
        (
            "coverage",
            LimitOverrides {
                coverage_max_bytes: Some(67_108_864),
                ..Default::default()
            },
            LimitOverrides {
                coverage_max_bytes: Some(67_108_865),
                ..Default::default()
            },
        ),
        (
            "image",
            LimitOverrides {
                image_max_dimension_px: Some(16_384),
                ..Default::default()
            },
            LimitOverrides {
                image_max_dimension_px: Some(16_385),
                ..Default::default()
            },
        ),
        (
            "image file bytes",
            LimitOverrides {
                image_max_file_bytes: Some(67_108_864),
                ..Default::default()
            },
            LimitOverrides {
                image_max_file_bytes: Some(67_108_865),
                ..Default::default()
            },
        ),
        (
            "image decoded bytes",
            LimitOverrides {
                image_max_decoded_bytes: Some(536_870_912),
                ..Default::default()
            },
            LimitOverrides {
                image_max_decoded_bytes: Some(536_870_913),
                ..Default::default()
            },
        ),
        (
            "frames",
            LimitOverrides {
                image_max_frames: Some(1_000),
                ..Default::default()
            },
            LimitOverrides {
                image_max_frames: Some(1_001),
                ..Default::default()
            },
        ),
        (
            "live",
            LimitOverrides {
                live_refresh_ms: Some(60_000),
                ..Default::default()
            },
            LimitOverrides {
                live_refresh_ms: Some(60_001),
                ..Default::default()
            },
        ),
        (
            "frame",
            LimitOverrides {
                frame_max_delay_ms: Some(60_000),
                ..Default::default()
            },
            LimitOverrides {
                frame_max_delay_ms: Some(60_001),
                ..Default::default()
            },
        ),
        (
            "frame minimum",
            LimitOverrides {
                frame_min_delay_ms: Some(1_000),
                ..Default::default()
            },
            LimitOverrides {
                frame_min_delay_ms: Some(1_001),
                ..Default::default()
            },
        ),
    ];
    for (name, valid, invalid) in cases {
        assert!(Limits::default().apply(&valid).is_ok(), "{name}");
        assert!(Limits::default().apply(&invalid).is_err(), "{name}");
    }
}

#[test]
fn limit_errors_name_the_field_and_its_range() {
    let error = Limits::default()
        .apply(&LimitOverrides {
            scan_max_files: Some(0),
            ..Default::default()
        })
        .unwrap_err();
    assert_eq!(error.to_text(), "limits.scan_max_files must be between 1 and 100000");
    let error = Limits::default()
        .apply(&LimitOverrides {
            frame_min_delay_ms: Some(500),
            frame_max_delay_ms: Some(499),
            ..Default::default()
        })
        .unwrap_err();
    assert_eq!(
        error.to_text(),
        "limits.frame_min_delay_ms must not exceed frame_max_delay_ms"
    );
}

#[test]
fn accepted_limits_take_the_place_of_the_defaults() {
    let mut limits = Limits::default();
    limits
        .apply(&LimitOverrides {
            image_max_frames: Some(7),
            ..Default::default()
        })
        .unwrap();
    assert_eq!(limits.image_max_frames, 7);
    assert_eq!(limits.frame_min_delay_ms, 20);
    assert_eq!(limits.frame_max_delay_ms, 10_000);
}
