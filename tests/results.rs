use run_pipeline::results::{parse_results, results_to_json, Json, JudgmentRecord};

fn s(x: &str) -> String {
    x.to_string()
}

fn obj(fields: Vec<(&str, Json)>) -> Json {
    Json::Object(fields.into_iter().map(|(k, v)| (k.to_string(), v)).collect())
}

fn one(image: &str, result: Json) -> Json {
    obj(vec![("image", Json::Str(s(image))), ("result", result)])
}

#[test]
fn ramp_present_parses_to_one_accessible_record() {
    let file = obj(vec![(
        "results",
        Json::Array(vec![one("photo.jpg", obj(vec![("accessible", Json::Bool(true)), ("reason", Json::Str(s("ramp present")))]))]),
    )]);
    let r = parse_results(&file).ok().unwrap();
    assert_eq!(r.len(), 1);
    assert_eq!(r[0].image, "photo.jpg");
    assert_eq!(r[0].accessible, Some(true));
    assert_eq!(r[0].reason, "ramp present");
}

#[test]
fn absent_and_null_accessible_stay_unknown() {
    let file = obj(vec![(
        "results",
        Json::Array(vec![
            one("a.jpg", obj(vec![("reason", Json::Str(s("unclear")))])),
            one("b.jpg", obj(vec![("accessible", Json::Null), ("reason", Json::Str(s("blurry")))])),
            one("c.jpg", obj(vec![("accessible", Json::Bool(false)), ("reason", Json::Str(s("stairs")))])),
        ]),
    )]);
    let r = parse_results(&file).ok().unwrap();
    let acc: Vec<Option<bool>> = r.iter().map(|x| x.accessible).collect();
    assert_eq!(acc, vec![None, None, Some(false)]);
    let names: Vec<&str> = r.iter().map(|x| x.image.as_str()).collect();
    assert_eq!(names, vec!["a.jpg", "b.jpg", "c.jpg"]);
}

#[test]
fn extra_members_are_ignored() {
    let file = obj(vec![
        ("model", Json::Str(s("v2"))),
        (
            "results",
            Json::Array(vec![obj(vec![
                ("score", Json::Number(s("0.5"))),
                ("image", Json::Str(s("x.jpg"))),
                ("result", obj(vec![("reason", Json::Str(s("ok"))), ("accessible", Json::Bool(true))])),
            ])]),
        ),
    ]);
    let r = parse_results(&file).ok().unwrap();
    assert_eq!(r[0].image, "x.jpg");
    assert_eq!(r[0].accessible, Some(true));
}

#[test]
fn empty_results_are_no_error() {
    let r = parse_results(&obj(vec![("results", Json::Array(vec![]))])).ok().unwrap();
    assert!(r.is_empty());
}

#[test]
fn malformed_files_are_format_errors() {
    let bad = vec![
        Json::Array(vec![]),
        obj(vec![]),
        obj(vec![("results", Json::Null)]),
        obj(vec![("results", Json::Array(vec![Json::Str(s("x"))]))]),
        obj(vec![("results", Json::Array(vec![one("a.jpg", obj(vec![("accessible", Json::Bool(true))]))]))]),
        obj(vec![(
            "results",
            Json::Array(vec![one("a.jpg", obj(vec![("accessible", Json::Str(s("yes"))), ("reason", Json::Str(s("r")))]))]),
        )]),
        obj(vec![(
            "results",
            Json::Array(vec![obj(vec![("image", Json::Number(s("1"))), ("result", obj(vec![("reason", Json::Str(s("r")))]))])]),
        )]),
    ];
    for b in &bad {
        assert!(parse_results(b).is_err());
    }
}

#[test]
fn records_round_trip_through_the_file_shape() {
    let records = vec![
        JudgmentRecord { image: s("a.jpg"), accessible: Some(true), reason: s("ramp") },
        JudgmentRecord { image: s("b.jpg"), accessible: None, reason: s("") },
        JudgmentRecord { image: s("c.jpg"), accessible: Some(false), reason: s("steps") },
    ];
    let back = parse_results(&results_to_json(&records)).ok().unwrap();
    assert_eq!(back.len(), 3);
    for (x, y) in records.iter().zip(back.iter()) {
        assert_eq!(x.image, y.image);
        assert_eq!(x.accessible, y.accessible);
        assert_eq!(x.reason, y.reason);
    }
}
