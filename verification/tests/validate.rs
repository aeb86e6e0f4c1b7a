use hike_club_admin::models::{HikeLocation, HikeRecord, HikeRequest, MeetingCoords};
use hike_club_admin::validate::{
    build_record, validate_known_slug, validate_locations, validate_map_upload, validate_meeting,
    validate_slug, validate_trails, CoordinateCheck, MAX_LOCATIONS, MAX_MAP_BYTES, MAX_NAME_LEN,
    MAX_SLUG_LEN, MAX_TRAILS,
};

fn locations() -> Vec<HikeLocation> {
    vec![
        HikeLocation {
            short_name: "danada-equestrian-center".to_string(),
            full_name: "Danada".to_string(),
        },
        HikeLocation {
            short_name: "cantigny-park".to_string(),
            full_name: "Cantigny".to_string(),
        },
    ]
}

fn request() -> HikeRequest {
    HikeRequest {
        meeting: MeetingCoords {
            lat_bits: 41.855_026f64.to_bits(),
            lon_bits: (-88.152_169f64).to_bits(),
        },
        trails: vec!["Purple".to_string()],
    }
}

#[test]
fn accepts_a_conventional_slug() {
    assert!(validate_slug("pratts-wayne-woods-forest-preserve").is_ok());
    assert!(validate_slug("cantigny-park").is_ok());
    assert!(validate_slug("a1").is_ok());
}

#[test]
fn rejects_empty_slug() {
    assert_eq!(validate_slug("").unwrap_err().status, 400);
}

#[test]
fn rejects_overlong_slug() {
    assert!(validate_slug(&"a".repeat(MAX_SLUG_LEN + 1)).is_err());
    assert!(validate_slug(&"a".repeat(MAX_SLUG_LEN)).is_ok());
}

#[test]
fn rejects_slug_hyphen_edges_and_doubles() {
    assert!(validate_slug("-leading").is_err());
    assert!(validate_slug("trailing-").is_err());
    assert!(validate_slug("double--hyphen").is_err());
}

/// The reason the slug rules exist: none of these may reach an R2 key.
#[test]
fn rejects_slug_that_would_escape_its_key_prefix() {
    for bad in [
        "..",
        "../secrets",
        "hikes/x",
        "Danada",
        "a b",
        "map.png",
        "café",
    ] {
        assert!(validate_slug(bad).is_err(), "should reject {bad:?}");
    }
}

#[test]
fn rejects_unknown_location() {
    let err = validate_known_slug("not-a-place", &locations()).unwrap_err();
    assert_eq!(err.status, 400);
    assert!(err.message.contains("unknown location"));
}

#[test]
fn accepts_known_location() {
    assert!(validate_known_slug("cantigny-park", &locations()).is_ok());
}

#[test]
fn builds_a_record_from_a_valid_request() {
    let record =
        build_record("cantigny-park", &request(), CoordinateCheck::InRange, &locations()).unwrap();
    assert_eq!(record.id, "cantigny-park");
    assert_eq!(record.meeting, request().meeting);
    assert_eq!(record.trails, vec!["Purple".to_string()]);
}

/// The write target is derived from the path, so a hostile body can't aim
/// it somewhere else: there is nowhere in `HikeRequest` to put one.
#[test]
fn map_key_is_server_derived_not_client_supplied() {
    let record =
        build_record("cantigny-park", &request(), CoordinateCheck::InRange, &locations()).unwrap();
    assert_eq!(record.map_key, "hikes/cantigny-park/map.png");
    assert_eq!(HikeRecord::key("cantigny-park"), "hikes/cantigny-park.json");
}

#[test]
fn trims_whitespace_around_trail_names() {
    let mut req = request();
    req.trails = vec!["  Purple  ".to_string()];
    let record =
        build_record("cantigny-park", &req, CoordinateCheck::InRange, &locations()).unwrap();
    assert_eq!(record.trails, vec!["Purple".to_string()]);
}

/// The float comparison happens before the library sees the request; each
/// verdict it can hand in is refused with its own message.
#[test]
fn rejects_out_of_range_coordinates() {
    for check in [CoordinateCheck::LatitudeOutOfRange, CoordinateCheck::LongitudeOutOfRange] {
        let err = build_record("cantigny-park", &request(), check, &locations()).unwrap_err();
        assert_eq!(err.status, 400);
    }
    assert_eq!(
        validate_meeting(CoordinateCheck::LatitudeOutOfRange).unwrap_err().message,
        "meeting.lat must be between -90 and 90"
    );
    assert_eq!(
        validate_meeting(CoordinateCheck::LongitudeOutOfRange).unwrap_err().message,
        "meeting.lon must be between -180 and 180"
    );
}

#[test]
fn rejects_empty_blank_or_overlong_trail_lists() {
    let mut req = request();
    req.trails = vec![];
    assert!(build_record("cantigny-park", &req, CoordinateCheck::InRange, &locations()).is_err());

    let mut req = request();
    req.trails = vec!["   ".to_string()];
    assert!(build_record("cantigny-park", &req, CoordinateCheck::InRange, &locations()).is_err());

    let mut req = request();
    req.trails = vec!["Loop".to_string(); MAX_TRAILS + 1];
    assert!(build_record("cantigny-park", &req, CoordinateCheck::InRange, &locations()).is_err());

    let mut req = request();
    req.trails = vec!["x".repeat(MAX_NAME_LEN + 1)];
    assert!(build_record("cantigny-park", &req, CoordinateCheck::InRange, &locations()).is_err());
}

#[test]
fn accepts_a_valid_location_list() {
    assert!(validate_locations(&locations()).is_ok());
    assert!(validate_locations(&[]).is_ok());
}

#[test]
fn rejects_duplicate_location_slugs() {
    let mut list = locations();
    list.push(list[0].clone());
    let err = validate_locations(&list).unwrap_err();
    assert!(err.message.contains("duplicate"));
}

#[test]
fn rejects_locations_with_bad_slug_or_blank_name() {
    let bad_slug = vec![HikeLocation {
        short_name: "Not A Slug".to_string(),
        full_name: "Somewhere".to_string(),
    }];
    assert!(validate_locations(&bad_slug).is_err());

    let blank_name = vec![HikeLocation {
        short_name: "somewhere".to_string(),
        full_name: "  ".to_string(),
    }];
    assert!(validate_locations(&blank_name).is_err());

    let long_name = vec![HikeLocation {
        short_name: "somewhere".to_string(),
        full_name: "x".repeat(MAX_NAME_LEN + 1),
    }];
    assert!(validate_locations(&long_name).is_err());
}

#[test]
fn rejects_too_many_locations() {
    let many: Vec<_> = (0..=MAX_LOCATIONS)
        .map(|i| HikeLocation {
            short_name: format!("place-{i}"),
            full_name: format!("Place {i}"),
        })
        .collect();
    assert!(validate_locations(&many).is_err());
}

#[test]
fn accepts_a_png_upload_with_parameters() {
    assert!(validate_map_upload(Some("image/png"), 1024).is_ok());
    assert!(validate_map_upload(Some("image/PNG; charset=binary"), 1024).is_ok());
}

#[test]
fn rejects_non_png_uploads_with_415() {
    assert_eq!(
        validate_map_upload(Some("image/jpeg"), 1024)
            .unwrap_err()
            .status,
        415
    );
    assert_eq!(validate_map_upload(None, 1024).unwrap_err().status, 415);
}

#[test]
fn rejects_empty_and_oversized_uploads() {
    assert_eq!(
        validate_map_upload(Some("image/png"), 0)
            .unwrap_err()
            .status,
        400
    );
    assert_eq!(
        validate_map_upload(Some("image/png"), MAX_MAP_BYTES + 1)
            .unwrap_err()
            .status,
        413
    );
    assert!(validate_map_upload(Some("image/png"), MAX_MAP_BYTES).is_ok());
}

// ---------------------------------------------------------------- messages

#[test]
fn slug_rejections_name_their_reason_in_order() {
    assert_eq!(validate_slug("").unwrap_err().message, "slug must not be empty");
    assert_eq!(
        validate_slug(&"a".repeat(65)).unwrap_err().message,
        "slug must be at most 64 characters"
    );
    assert_eq!(
        validate_slug("-A").unwrap_err().message,
        "slug must not start, end, or double up on '-'"
    );
    assert_eq!(
        validate_slug("a.b").unwrap_err().message,
        "slug must contain only lowercase letters, digits and '-'"
    );
}

/// The length limit counts bytes: 33 two-byte characters exceed it although
/// they are only 33 characters.
#[test]
fn slug_length_counts_bytes() {
    let err = validate_slug(&"é".repeat(33)).unwrap_err();
    assert_eq!(err.message, "slug must be at most 64 characters");
    let err = validate_slug(&"é".repeat(32)).unwrap_err();
    assert_eq!(err.message, "slug must contain only lowercase letters, digits and '-'");
}

#[test]
fn unknown_location_message_names_the_slug() {
    let err = validate_known_slug("oakhurst", &locations()).unwrap_err();
    assert_eq!(err.message, "unknown location 'oakhurst' — add it under Locations first");
    let err = validate_known_slug("Oakhurst", &locations()).unwrap_err();
    assert!(err.message.starts_with("slug must"));
}

#[test]
fn trail_rejections_name_their_reason() {
    assert_eq!(validate_trails(&[]).unwrap_err().message, "at least one trail is required");
    let many = vec!["Loop".to_string(); 21];
    assert_eq!(validate_trails(&many).unwrap_err().message, "at most 20 trails are allowed");
    let blank = vec!["Red".to_string(), "\u{3000}\t".to_string()];
    assert_eq!(validate_trails(&blank).unwrap_err().message, "trail names must not be blank");
    let long = vec!["é".repeat(101)];
    assert_eq!(
        validate_trails(&long).unwrap_err().message,
        "trail names must be at most 100 characters"
    );
    assert!(validate_trails(&["é".repeat(100)]).is_ok());
    assert!(validate_trails(&vec!["Loop".to_string(); 20]).is_ok());
}

#[test]
fn record_checks_run_slug_then_meeting_then_trails() {
    let mut req = request();
    req.trails = vec![];
    let err =
        build_record("nowhere", &req, CoordinateCheck::LatitudeOutOfRange, &locations()).unwrap_err();
    assert!(err.message.starts_with("unknown location"));
    let err = build_record("cantigny-park", &req, CoordinateCheck::LatitudeOutOfRange, &locations())
        .unwrap_err();
    assert_eq!(err.message, "meeting.lat must be between -90 and 90");
    let err =
        build_record("cantigny-park", &req, CoordinateCheck::InRange, &locations()).unwrap_err();
    assert_eq!(err.message, "at least one trail is required");
}

#[test]
fn trims_unicode_whitespace_and_keeps_inner_spaces() {
    let mut req = request();
    req.trails = vec!["\u{a0} Blue Loop\u{2003}\n".to_string(), "Green".to_string()];
    let record =
        build_record("cantigny-park", &req, CoordinateCheck::InRange, &locations()).unwrap();
    assert_eq!(record.trails, vec!["Blue Loop".to_string(), "Green".to_string()]);
    assert_eq!(record.id, "cantigny-park");
}

#[test]
fn location_rejections_name_their_reason() {
    let blank = vec![HikeLocation {
        short_name: "somewhere".to_string(),
        full_name: " ".to_string(),
    }];
    assert_eq!(
        validate_locations(&blank).unwrap_err().message,
        "location 'somewhere' needs a display name"
    );
    let mut dup = locations();
    dup.push(HikeLocation {
        short_name: "cantigny-park".to_string(),
        full_name: "Again".to_string(),
    });
    assert_eq!(
        validate_locations(&dup).unwrap_err().message,
        "duplicate location 'cantigny-park'"
    );
    let long = vec![HikeLocation {
        short_name: "somewhere".to_string(),
        full_name: "x".repeat(101),
    }];
    assert_eq!(
        validate_locations(&long).unwrap_err().message,
        "display names must be at most 100 characters"
    );
    let many: Vec<_> = (0..201)
        .map(|i| HikeLocation {
            short_name: format!("p{i}"),
            full_name: "P".to_string(),
        })
        .collect();
    assert_eq!(
        validate_locations(&many).unwrap_err().message,
        "at most 200 locations are allowed"
    );
    assert!(validate_locations(&many[..200]).is_ok());
}

/// Per-entry problems are reported before duplicates, whatever their order.
#[test]
fn entry_problems_come_before_duplicates() {
    let list = vec![
        HikeLocation { short_name: "a".to_string(), full_name: "A".to_string() },
        HikeLocation { short_name: "a".to_string(), full_name: "B".to_string() },
        HikeLocation { short_name: "B".to_string(), full_name: "C".to_string() },
    ];
    assert!(validate_locations(&list).unwrap_err().message.starts_with("slug must"));
}

#[test]
fn map_upload_messages() {
    assert_eq!(
        validate_map_upload(Some("text/plain"), 5).unwrap_err().message,
        "trail maps must be image/png"
    );
    assert_eq!(validate_map_upload(Some("image/png"), 0).unwrap_err().message, "trail map is empty");
    assert_eq!(
        validate_map_upload(Some("image/png"), MAX_MAP_BYTES + 1).unwrap_err().message,
        "trail map must be at most 5 MB"
    );
    assert!(validate_map_upload(Some("  Image/Png  ;x=1"), 1).is_ok());
    assert!(validate_map_upload(Some("image/pngx"), 1).is_err());
    assert!(validate_map_upload(Some(";image/png"), 1).is_err());
    assert!(validate_map_upload(Some("image/pnǵ"), 1).is_err());
    // The type is checked before the size: a wrong type is 415 even when empty.
    assert_eq!(validate_map_upload(Some("image/gif"), 0).unwrap_err().status, 415);
}

/// The published limits, held against the validator's constants: a slug of
/// at most 64 bytes, 1 to 20 trails, names of at most 100 characters, at most
/// 200 locations, maps of at most 5 MB.
#[test]
fn the_limits_are_the_published_ones() {
    assert_eq!(MAX_SLUG_LEN, 64);
    assert_eq!(MAX_TRAILS, 20);
    assert_eq!(MAX_NAME_LEN, 100);
    assert_eq!(MAX_LOCATIONS, 200);
    assert_eq!(MAX_MAP_BYTES, 5 * 1024 * 1024);
    let trails: Vec<String> = vec!["Loop".to_string(); MAX_TRAILS];
    assert!(validate_trails(&trails).is_ok());
    assert!(validate_trails(&[]).is_err());
    let slug = "a".repeat(MAX_SLUG_LEN);
    assert!(validate_slug(&slug).is_ok());
    assert!(validate_slug(&format!("{slug}a")).is_err());
}

/// `^[a-z0-9]+(-[a-z0-9]+)*$`, written out.
fn matches_slug_pattern(s: &str) -> bool {
    !s.is_empty()
        && s.split('-').all(|part| {
            !part.is_empty() && part.chars().all(|c| c.is_ascii_lowercase() || c.is_ascii_digit())
        })
}

/// The validator and the slug pattern agree on malformed and well-formed
/// slugs alike.
#[test]
fn the_validator_and_the_slug_pattern_agree() {
    for bad in ["", "..", "../secrets", "hikes/x", "Danada", "a b", "-lead", "trail-", "a--b"] {
        assert!(!matches_slug_pattern(bad), "{bad:?}");
        assert!(validate_slug(bad).is_err(), "{bad:?}");
    }
    for good in ["cantigny-park", "pratts-wayne-woods-forest-preserve", "a1"] {
        assert!(matches_slug_pattern(good), "{good}");
        assert!(validate_slug(good).is_ok(), "{good}");
    }
}

/// A derived map key has the published shape `hikes/{slug}/map.png` with a
/// slug that matches the slug pattern.
#[test]
fn derived_map_keys_have_the_published_shape() {
    for slug in ["cantigny-park", "a1", "pratts-wayne-woods-forest-preserve"] {
        let key = HikeRecord::map_key_for(slug);
        let inner = key
            .strip_prefix("hikes/")
            .and_then(|rest| rest.strip_suffix("/map.png"))
            .expect("hikes/{slug}/map.png");
        assert_eq!(inner, slug);
        assert!(matches_slug_pattern(inner), "{key}");
    }
}
