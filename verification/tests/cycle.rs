use eat_ou::get_viable;
use eat_ou::shuffle;
use eat_ou::tuplify;
use eat_ou::Advance;
use eat_ou::Day;
use eat_ou::Hours;
use eat_ou::HoursMap;
use eat_ou::Restaurant;
use eat_ou::State;
use eat_ou::SuggestionCycle;
use eat_ou::Time;

fn all_day() -> Hours {
    Hours::new(Time::new(0, 0), Time::new(23, 59))
}

fn open_restaurant(name: &str, day: Day) -> Restaurant {
    Restaurant::new(
        String::from(name),
        HoursMap::closed_all_week().with_day(day, Some(all_day())),
    )
}

fn closed_restaurant(name: &str) -> Restaurant {
    Restaurant::new(String::from(name), HoursMap::closed_all_week())
}

fn sample_catalog(day: Day) -> Vec<Restaurant> {
    vec![
        open_restaurant("A", day),
        closed_restaurant("B"),
        open_restaurant("C", day),
    ]
}

#[test]
fn get_viable_filters_in_order() {
    let day = Day::Tuesday;
    let catalog = sample_catalog(day);
    let viable = get_viable(&catalog, day, Time::new(12, 0));
    let names: Vec<&str> = viable.iter().map(|r| r.name.as_str()).collect();
    assert_eq!(names, vec!["A", "C"]);
}

#[test]
fn shuffle_preserves_elements() {
    let mut items = vec![10u32, 20, 30, 40];
    // Each round swaps the drawn index with the tail of the shrinking range.
    let picks = vec![1usize, 0, 1, 0];
    shuffle(&mut items, &picks);
    assert_eq!(items.len(), 4);
    let mut sorted = items.clone();
    sorted.sort();
    assert_eq!(sorted, vec![10, 20, 30, 40]);
}

#[test]
fn shuffle_identity_picks() {
    let mut items = vec![1u8, 2, 3];
    // Drawing the tail position itself in every round moves nothing.
    let picks = vec![2usize, 1, 0];
    shuffle(&mut items, &picks);
    assert_eq!(items, vec![1, 2, 3]);
}

#[test]
fn shuffle_rotates_with_zero_picks() {
    let mut items = vec![1u8, 2, 3];
    let picks = vec![0usize, 0, 0];
    // Round one swaps positions 0 and 2, round two swaps 0 and 1.
    shuffle(&mut items, &picks);
    assert_eq!(items, vec![2, 3, 1]);
}

#[test]
fn shuffle_is_a_bijection_on_draws() {
    // For three items there are exactly 3 * 2 * 1 pick streams; the
    // shuffle maps them one-to-one onto the 6 permutations, so uniform
    // draws give a uniform permutation.
    let mut seen: Vec<Vec<u8>> = Vec::new();
    for p0 in 0..3usize {
        for p1 in 0..2usize {
            let mut items = vec![1u8, 2, 3];
            shuffle(&mut items, &vec![p0, p1, 0]);
            assert!(!seen.contains(&items));
            seen.push(items);
        }
    }
    assert_eq!(seen.len(), 6);
}

#[test]
fn tuplify_groups_viable_first_sorted() {
    let day = Day::Friday;
    let time = Time::new(12, 0);
    let catalog = vec![
        open_restaurant("Char", day),
        closed_restaurant("Alpha"),
        open_restaurant("Bravo", day),
    ];
    let rows = tuplify(&catalog, day, time);
    assert_eq!(rows.len(), 3);
    // Viable entries come first, each group sorted by name ascending.
    assert_eq!(rows[0].0, "Bravo");
    assert!(rows[0].2);
    assert_eq!(rows[1].0, "Char");
    assert!(rows[1].2);
    assert_eq!(rows[2].0, "Alpha");
    assert!(!rows[2].2);
    // Open entries carry the day's hours label, closed ones an empty one.
    assert_eq!(rows[0].1, all_day().to_display());
    assert_eq!(rows[2].1, "");
}

#[test]
fn suggestion_cycle_scenario() {
    let day = Day::Wednesday;
    let time = Time::new(12, 0);
    let catalog = sample_catalog(day);
    let mut queue = get_viable(&catalog, day, time);
    shuffle(&mut queue, &vec![0usize, 0]);
    let (mut cycle, first) = SuggestionCycle::start(queue, day);

    // The first advance already happened inside start.
    assert_eq!(first, Advance::Suggested);
    assert_eq!(cycle.get_state(), State::Presenting);
    let first_name = cycle.suggestion().as_ref().unwrap().0.clone();

    let second = cycle.next(day);
    assert_eq!(second, Advance::Suggested);
    let second_name = cycle.suggestion().as_ref().unwrap().0.clone();

    // The two viable candidates come out in some shuffled order.
    let mut seen = vec![first_name.as_str(), second_name.as_str()];
    seen.sort();
    assert_eq!(seen, vec!["A", "C"]);

    // The third advance exhausts the queue and ends the cycle.
    let third = cycle.next(day);
    assert_eq!(third, Advance::Ended);
    assert_eq!(cycle.get_state(), State::Terminated);

    // A fourth advance asks for a restart rather than staying stuck.
    let fourth = cycle.next(day);
    assert_eq!(fourth, Advance::Restart);
    let queue = get_viable(&catalog, day, time);
    let (cycle, restarted) = SuggestionCycle::start(queue, day);
    assert_eq!(restarted, Advance::Suggested);
    assert_eq!(cycle.get_state(), State::Presenting);
}

#[test]
fn empty_catalog_ends_immediately() {
    let day = Day::Monday;
    let (mut cycle, advance) = SuggestionCycle::start(Vec::new(), day);
    assert_eq!(advance, Advance::Ended);
    assert_eq!(cycle.get_state(), State::Terminated);
    assert_eq!(cycle.next(day), Advance::Restart);
}

#[test]
fn toggle_tabulation_round_trip() {
    let day = Day::Thursday;
    let time = Time::new(18, 30);
    let catalog = sample_catalog(day);
    let queue = get_viable(&catalog, day, time);
    let (mut cycle, _) = SuggestionCycle::start(queue, day);
    assert_eq!(cycle.get_state(), State::Presenting);
    let before_remaining = cycle.remaining();
    let before_suggestion = cycle.suggestion().clone();

    let rows = cycle.toggle_list_mode(&catalog, day, time);
    assert!(rows.is_some());
    assert_eq!(cycle.get_state(), State::Tabulating);

    // Toggling again returns to presenting with the queue and the current
    // suggestion untouched.
    let rows = cycle.toggle_list_mode(&catalog, day, time);
    assert!(rows.is_none());
    assert_eq!(cycle.get_state(), State::Presenting);
    assert_eq!(cycle.remaining(), before_remaining);
    assert_eq!(cycle.suggestion(), &before_suggestion);
}

#[test]
fn tabulation_overlays_terminated() {
    let day = Day::Sunday;
    let time = Time::new(12, 0);
    let catalog = sample_catalog(day);
    let (mut cycle, _) = SuggestionCycle::start(Vec::new(), day);
    assert_eq!(cycle.get_state(), State::Terminated);
    cycle.toggle_list_mode(&catalog, day, time);
    assert_eq!(cycle.get_state(), State::Tabulating);
    // Leaving tabulation reverts to the mode in effect before it.
    cycle.stop_tabulation();
    assert_eq!(cycle.get_state(), State::Terminated);
}

#[test]
fn advance_ignored_while_tabulating() {
    let day = Day::Monday;
    let time = Time::new(12, 0);
    let catalog = sample_catalog(day);
    let queue = get_viable(&catalog, day, time);
    let (mut cycle, _) = SuggestionCycle::start(queue, day);
    cycle.toggle_list_mode(&catalog, day, time);
    let remaining = cycle.remaining();
    assert_eq!(cycle.next(day), Advance::Ignored);
    assert_eq!(cycle.remaining(), remaining);
}

#[test]
fn set_state_accessors() {
    let (mut cycle, _) = SuggestionCycle::start(Vec::new(), Day::Monday);
    cycle.set_state(State::Presenting);
    assert_eq!(cycle.get_state(), State::Presenting);
    cycle.set_state(State::Terminated);
    assert_eq!(cycle.get_state(), State::Terminated);
    cycle.set_state(State::Tabulating);
    assert_eq!(cycle.get_state(), State::Tabulating);
    cycle.set_state(State::Presenting);
    assert_eq!(cycle.get_state(), State::Presenting);
}

#[test]
fn set_suggestion_shows_on_display() {
    let (mut cycle, _) = SuggestionCycle::start(Vec::new(), Day::Monday);
    cycle.set_suggestion("Somewhere", "9:00 AM\u{2013}5:00 PM");
    let shown = cycle.suggestion().as_ref().unwrap();
    assert_eq!(shown.0, "Somewhere");
    assert_eq!(shown.1, "9:00 AM\u{2013}5:00 PM");
}
