use footie_grouper::normalize::assign_arts;
use footie_grouper::normalize::assign_days;
use footie_grouper::normalize::assign_difficulty;
use footie_grouper::normalize::assign_food;
use footie_grouper::normalize::assign_pronouns;
use footie_grouper::normalize::normalize_person;
use footie_grouper::person::Coordinates;
use footie_grouper::person::Person;

fn person(id: &str, prefs: (i64, i64, i64), pronouns: &str) -> Person {
    Person {
        id: id.to_string(),
        name: format!("person {}", id),
        preference_1: prefs.0,
        preference_2: prefs.1,
        preference_3: prefs.2,
        pronouns: pronouns.to_string(),
        pronouns_code: 0,
        residential_college: String::new(),
        difficulty: String::new(),
        difficulty_code: 0,
        days: String::new(),
        days_code: 0,
        arts: String::new(),
        arts_code: 0,
        food: String::new(),
        food_code: 0,
        location: String::new(),
        location_coords: Coordinates { lat_micro: 0, lon_micro: 0 },
        school: String::new(),
        school_code: 0,
    }
}

#[test]
fn pronouns_exact_matches() {
    for (text, code) in [
        ("he/him", 10),
        ("he/they", 10),
        ("she/her", 20),
        ("she/they", 20),
        ("they/them", 30),
        ("", 30),
        // exact byte match is required: no trimming, no case folding
        ("He/Him", 30),
        ("he/him ", 30),
    ] {
        let mut p = person("1", (0, 0, 0), text);
        assign_pronouns(&mut p);
        assert_eq!(p.pronouns_code, code, "pronoun text {:?}", text);
    }
}

#[test]
fn difficulty_exact_matches_and_catch_all() {
    for (text, code) in [
        ("Easy: a mellow trip, though still some challenges!", 10),
        ("Moderate: a few ups and downs, some rough terrain", 20),
        ("Strenuous: some ups and downs, some rough terrain", 30),
        // a differently worded strenuous answer falls to the catch-all
        ("Strenuous: lots of ups and downs, rough terrain", 40),
        ("", 40),
    ] {
        let mut p = person("1", (0, 0, 0), "");
        p.difficulty = text.to_string();
        assign_difficulty(&mut p);
        assert_eq!(p.difficulty_code, code, "difficulty text {:?}", text);
    }
}

#[test]
fn days_and_arts_polar_answers_and_indifferent_default() {
    for (text, code) in [
        ("Yes, I am interested in day hikes only", 10),
        ("I am NOT interested in day hikes.", 20),
        ("Maybe", 18),
        ("", 18),
    ] {
        let mut p = person("1", (0, 0, 0), "");
        p.days = text.to_string();
        assign_days(&mut p);
        assert_eq!(p.days_code, code, "days text {:?}", text);
    }
    for (text, code) in [
        ("Yes, I am interested in the arts-focused trips only", 10),
        ("I am NOT interested in the arts-focused trips.", 20),
        ("No preference", 18),
    ] {
        let mut p = person("1", (0, 0, 0), "");
        p.arts = text.to_string();
        assign_arts(&mut p);
        assert_eq!(p.arts_code, code, "arts text {:?}", text);
    }
}

#[test]
fn food_nut_allergy_flag_and_default_to_safe() {
    for (text, code) in [
        // code 2.0 (held as 20) marks the nut-allergy flag
        ("Allergic to tree nuts", 20),
        ("Allergic to peanuts", 20),
        ("Coconut allergy", 20),
        // the two recognized no-restriction answers
        ("I have no dietary restrictions or preferences", 10),
        ("Other requirement", 10),
        // unrecognized dietary text defaults to "no restriction" —
        // the documented default-to-safe risk, preserved as it stands
        ("Vegan", 10),
        ("", 10),
    ] {
        let mut p = person("1", (0, 0, 0), "");
        p.food = text.to_string();
        assign_food(&mut p);
        assert_eq!(p.food_code, code, "food text {:?}", text);
    }
}

#[test]
fn normalization_fills_every_code_and_keeps_raw_fields() {
    let mut p = person("7", (10, 20, 30), "she/her");
    p.difficulty = "Easy: a mellow trip, though still some challenges!".to_string();
    p.days = "whatever".to_string();
    p.arts = "I am NOT interested in the arts-focused trips.".to_string();
    p.food = "Allergic to peanuts".to_string();
    normalize_person(&mut p);
    assert_eq!(p.pronouns_code, 20);
    assert_eq!(p.difficulty_code, 10);
    assert_eq!(p.days_code, 18);
    assert_eq!(p.arts_code, 20);
    assert_eq!(p.food_code, 20);
    assert_eq!(p.pronouns, "she/her");
    assert_eq!(p.preference_1, 10);
    assert_eq!(p.preference_2, 20);
    assert_eq!(p.preference_3, 30);
    assert_eq!(p.id, "7");
}

#[test]
fn normalization_is_idempotent() {
    let mut p = person("7", (10, 20, 30), "he/they");
    p.difficulty = "Moderate: a few ups and downs, some rough terrain".to_string();
    p.days = "Yes, I am interested in day hikes only".to_string();
    p.arts = "??".to_string();
    p.food = "Vegan".to_string();
    normalize_person(&mut p);
    let once = p.clone();
    normalize_person(&mut p);
    assert_eq!(p, once);
}
