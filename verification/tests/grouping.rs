use footie_grouper::group::group_people;
use footie_grouper::group::sort_people;
use footie_grouper::normalize::assign_pronouns;
use footie_grouper::person::Coordinates;
use footie_grouper::person::Person;
use footie_grouper::score::calculate_similarity;
use footie_grouper::score::sort_key;

fn person(id: &str, prefs: (i64, i64, i64), pronouns_code: i64) -> Person {
    Person {
        id: id.to_string(),
        name: format!("person {}", id),
        preference_1: prefs.0,
        preference_2: prefs.1,
        preference_3: prefs.2,
        pronouns: String::new(),
        pronouns_code,
        residential_college: String::new(),
        difficulty: String::new(),
        difficulty_code: 0,
        days: String::new(),
        days_code: 0,
        arts: String::new(),
        arts_code: 0,
        food: String::new(),
        food_code: 0,
        location: String::new(),
        location_coords: Coordinates { lat_micro: 0, lon_micro: 0 },
        school: String::new(),
        school_code: 0,
    }
}

#[test]
fn sort_key_exact_value() {
    // preferences 1.0, 1.0, 1.0 and pronoun code 1.0 in tenths:
    // key = 100 + 100 + 100 + 100 hundredths = 4.0
    let p = person("1", (10, 10, 10), 10);
    assert_eq!(sort_key(&p), 400);
    let q = person("2", (0, 0, 0), 20);
    assert_eq!(sort_key(&q), 400);
}

#[test]
fn similarity_exact_value() {
    let p1 = person("1", (10, 20, 30), 10);
    let p2 = person("2", (0, 0, 0), 30);
    // squared distance: 100 + 400 + 900 + 400 = 1800 hundredths
    assert_eq!(calculate_similarity(&p1, &p2), 1800);
    assert_eq!(calculate_similarity(&p1, &p1), 0);
    // symmetric
    assert_eq!(calculate_similarity(&p2, &p1), 1800);
}

#[test]
fn sort_orders_ascending_and_keeps_ties_stable() {
    let mut v = vec![
        person("high", (30, 0, 0), 0),
        person("tie_b", (10, 0, 0), 0),
        person("low", (0, 0, 0), 0),
        person("tie_a", (10, 0, 0), 0),
    ];
    sort_people(&mut v);
    let ids: Vec<&str> = v.iter().map(|p| p.id.as_str()).collect();
    // equal keys keep input order: tie_b came before tie_a
    assert_eq!(ids, ["low", "tie_b", "tie_a", "high"]);
}

#[test]
fn two_person_roster_single_group_tie_kept_in_input_order() {
    // both sort keys are 4.0: 1+1+1+1 for he/him, 0+0+0+4 for she/her.
    // The stable tie-break keeps input order, so the he/him entry, first in
    // the input, stays first.
    let mut a = person("he", (10, 10, 10), 0);
    a.pronouns = "he/him".to_string();
    assign_pronouns(&mut a);
    let mut b = person("she", (0, 0, 0), 0);
    b.pronouns = "she/her".to_string();
    assign_pronouns(&mut b);
    assert_eq!(sort_key(&a), 400);
    assert_eq!(sort_key(&b), 400);
    let groups = group_people(vec![a, b], 2);
    assert_eq!(groups.len(), 1);
    assert_eq!(groups[0].len(), 2);
    assert_eq!(groups[0][0].id, "he");
    assert_eq!(groups[0][1].id, "she");
}

#[test]
fn nine_people_in_groups_of_eight_make_sizes_eight_and_one() {
    let people: Vec<Person> =
        (0..9).map(|i| person(&i.to_string(), (i as i64 * 10, 0, 0), 10)).collect();
    let groups = group_people(people, 8);
    assert_eq!(groups.len(), 2);
    assert_eq!(groups[0].len(), 8);
    assert_eq!(groups[1].len(), 1);
}

#[test]
fn groups_cover_roster_exactly_once() {
    let people: Vec<Person> = (0..5).map(|i| person(&i.to_string(), (50 - i as i64 * 10, 0, 0), 0)).collect();
    let groups = group_people(people, 2);
    assert_eq!(groups.len(), 3);
    assert_eq!(groups[0].len(), 2);
    assert_eq!(groups[1].len(), 2);
    assert_eq!(groups[2].len(), 1);
    let mut ids: Vec<String> = groups.iter().flatten().map(|p| p.id.clone()).collect();
    ids.sort();
    assert_eq!(ids, ["0", "1", "2", "3", "4"]);
}

#[test]
fn exact_multiple_roster_has_no_undersized_group() {
    let people: Vec<Person> = (0..6).map(|i| person(&i.to_string(), (i as i64, 0, 0), 0)).collect();
    let groups = group_people(people, 3);
    assert_eq!(groups.len(), 2);
    assert!(groups.iter().all(|g| g.len() == 3));
}

#[test]
fn empty_roster_yields_no_groups() {
    let groups = group_people(Vec::new(), 8);
    assert!(groups.is_empty());
}

#[test]
fn grouping_is_deterministic() {
    let make = || -> Vec<Person> {
        vec![
            person("a", (10, 0, 0), 20),
            person("b", (10, 0, 0), 20),
            person("c", (0, 30, 0), 10),
            person("d", (5, 5, 5), 30),
            person("e", (0, 0, 0), 10),
        ]
    };
    let first = group_people(make(), 2);
    let second = group_people(make(), 2);
    assert_eq!(first, second);
    // grouped order is ascending by key within the flattened sequence
    let flat: Vec<&Person> = first.iter().flatten().collect();
    for w in flat.windows(2) {
        assert!(sort_key(w[0]) <= sort_key(w[1]));
    }
}
