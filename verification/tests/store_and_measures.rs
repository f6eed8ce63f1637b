use liftcalc::fact_store::{pick_store, random_position, random_store, total_count};
use liftcalc::interface::Measure;
use liftcalc::measures::{build_lift_result, by_id, measures_from_defs, MeasureDef};
use liftcalc::weight::InputWeightType;

#[test]
fn picks_land_in_stores_by_size() {
    let counts = vec![3usize, 0, 2];
    let picks: Vec<Option<usize>> = (0..6).map(|p| pick_store(&counts, p)).collect();
    assert_eq!(picks, vec![Some(0), Some(0), Some(0), Some(2), Some(2), None]);
    assert_eq!(total_count(&counts), 5);
    assert_eq!(pick_store(&vec![], 0), None);
}

#[test]
fn every_store_gets_its_share_of_picks() {
    let counts = vec![4usize, 1, 0, 7, 2];
    let total = total_count(&counts);
    let mut hits = vec![0usize; counts.len()];
    for p in 0..total {
        hits[pick_store(&counts, p).unwrap()] += 1;
    }
    assert_eq!(hits, counts);
}

#[test]
fn random_store_only_picks_non_empty_stores() {
    assert_eq!(random_store(&vec![0, 0]), None);
    assert_eq!(random_store(&vec![]), None);
    for _ in 0..50 {
        let i = random_store(&vec![0, 3, 0, 1]).unwrap();
        assert!(i == 1 || i == 3);
    }
    assert_eq!(random_position(0), None);
    for _ in 0..20 {
        assert!(random_position(3).unwrap() < 3);
    }
}

fn def(name: &str, grams: f64, icon: &[&str]) -> MeasureDef {
    MeasureDef {
        name: name.to_string(),
        grams_bits: grams.to_bits(),
        icon: icon.iter().map(|s| s.to_string()).collect(),
    }
}

#[test]
fn built_in_measures_get_negative_ids() {
    let ms = measures_from_defs(&vec![
        def("Bags of Rice", 453.6, &["1f35a"]),
        def("Germanys", 5.357e17, &["1f1e9_1f1ea", "1f5fa"]),
        def("Rocks", 1000.0, &[]),
    ]);
    assert_eq!(ms.len(), 3);
    assert_eq!(ms[0].id, -1);
    assert_eq!(ms[1].id, -2);
    assert_eq!(ms[2].id, -3);
    assert_eq!(ms[0].icon.as_deref(), Some("1f35a"));
    assert_eq!(ms[1].icon.as_deref(), Some("1f1e9_1f1ea+1f5fa"));
    assert_eq!(ms[2].icon, None);
    assert_eq!(f64::from_bits(ms[1].grams_bits), 5.357e17);
    assert_eq!(by_id(&ms, -2).unwrap().name, "Germanys");
    assert_eq!(by_id(&ms, -1).unwrap().id, -1);
    assert!(by_id(&ms, 0).is_none());
    assert!(by_id(&ms, 5).is_none());
    assert!(by_id(&ms, -4).is_none());
    assert!(by_id(&ms, i32::MIN).is_none());
    for m in &ms {
        assert_eq!(by_id(&ms, m.id).unwrap(), m.duplicate());
    }
}

#[test]
fn lift_results_lead_with_the_entered_unit() {
    let m = Measure {
        id: 7,
        name: "Bags of Rice".to_string(),
        grams_bits: 453.6f64.to_bits(),
        icon: Some("1f35a".to_string()),
    };
    let r = build_lift_result(&InputWeightType::Lbs, "1,234.00", "559.73", "74.63", "1234lbs", &m);
    assert_eq!(r.primary, "1,234.00 lbs");
    assert_eq!(r.secondary, "559.73 kgs");
    assert_eq!(r.permalink, "howmuchdidilift.com/w/1234lbs");
    assert_eq!(r.units, "Bags of Rice");
    assert_eq!(r.count, "74.63");
    assert_eq!(r.icon.as_deref(), Some("1f35a"));
    assert_eq!(
        r.share_text,
        "Today's workout was 1,234.00 lbs (559.73 kgs), or 74.63 Bags of Rice!\n\nhowmuchdidilift.com/w/1234lbs"
    );
    let r = build_lift_result(&InputWeightType::Kgs, "220.46", "100.00", "2", "100kgs", &m);
    assert_eq!(r.primary, "100.00 kgs");
    assert_eq!(r.secondary, "220.46 lbs");
}
