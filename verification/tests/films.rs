use alamo_movies::film::{films_for_listing, filter_films, sort_films, Film};

fn film(name: &str, show_type: &str) -> Film {
    Film { name: name.to_string(), show_type: show_type.to_string() }
}

#[test]
fn sort_orders_by_name_code_point() {
    let films = vec![film("alpha", "Terror Tuesday"), film("Zebra", "Q&A"), film("Alpha", "Big Show")];
    let sorted = sort_films(films);
    // Upper-case letters sort before lower-case ones.
    assert_eq!(sorted[0].name, "Alpha");
    assert_eq!(sorted[1].name, "Zebra");
    assert_eq!(sorted[2].name, "alpha");
}

#[test]
fn resorting_sorted_list_is_noop() {
    // Two entries share a name; the sorted list keeps their order.
    let films = vec![film("Alien", "Movie Party"), film("Brazil", "Q&A"), film("Brazil", "Big Show")];
    let sorted = sort_films(films.clone());
    assert_eq!(sorted, films);
    let resorted = sort_films(sorted.clone());
    assert_eq!(resorted, sorted);
}

#[test]
fn equal_names_keep_original_order() {
    let films = vec![film("Brazil", "Q&A"), film("Alien", "Movie Party"), film("Brazil", "Big Show")];
    let sorted = sort_films(films);
    assert_eq!(sorted[0].name, "Alien");
    assert_eq!(sorted[1].show_type, "Q&A");
    assert_eq!(sorted[2].show_type, "Big Show");
}

#[test]
fn filter_is_case_insensitive() {
    let films = vec![film("Alien", "Q&A"), film("Brazil", "Big Show"), film("Coco", "q&a")];
    let upper = filter_films(films.clone(), "Q&A");
    let lower = filter_films(films, "q&a");
    assert_eq!(upper, lower);
    assert_eq!(upper.len(), 2);
    assert_eq!(upper[0].name, "Alien");
    assert_eq!(upper[1].name, "Coco");
}

#[test]
fn filter_folds_case_beyond_ascii() {
    // The show type "F\u{CA}TE" (FETE with a circumflex E) matches the
    // lower-case query "f\u{EA}te".
    let films = vec![film("Amelie", "F\u{CA}TE"), film("Brazil", "Big Show")];
    let matched = filter_films(films, "f\u{EA}te");
    assert_eq!(matched.len(), 1);
    assert_eq!(matched[0].name, "Amelie");
}

#[test]
fn filter_keeps_only_matching_show_type() {
    let films = vec![film("Alien", "Q&A"), film("Brazil", "Big Show")];
    let only = filter_films(films, "big show");
    assert_eq!(only.len(), 1);
    assert_eq!(only[0].name, "Brazil");
}

#[test]
fn listing_sorts_then_filters() {
    let films = vec![film("Coco", "Q&A"), film("Alien", "q&a"), film("Brazil", "Big Show")];
    let all = films_for_listing(films.clone(), None);
    assert_eq!(all[0].name, "Alien");
    assert_eq!(all[1].name, "Brazil");
    assert_eq!(all[2].name, "Coco");
    let talks = films_for_listing(films, Some("Q&A"));
    assert_eq!(talks.len(), 2);
    assert_eq!(talks[0].name, "Alien");
    assert_eq!(talks[1].name, "Coco");
}
