use pathtracer::material::MaterialKind;
use pathtracer::path::{exhausted, meet, step, Event, Outcome, Step};

fn follow(depth: usize, events: &[Event]) -> (usize, Option<Outcome>) {
    let mut left = depth;
    let mut met = 0;
    loop {
        if exhausted(left) {
            return (met, Some(Outcome::Black));
        }
        if met == events.len() {
            return (met, None);
        }
        match step(left, events[met]) {
            Step::Done(outcome) => return (met + 1, Some(outcome)),
            Step::Continue(rest) => {
                left = rest;
                met += 1;
            }
        }
    }
}

#[test]
fn no_budget_is_black_whatever_is_met() {
    assert!(exhausted(0));
    assert_eq!(step(0, Event::Miss), Step::Done(Outcome::Black));
    assert_eq!(step(0, Event::Absorb), Step::Done(Outcome::Black));
    assert_eq!(step(0, Event::Scatter), Step::Done(Outcome::Black));
}

#[test]
fn a_path_with_budget_is_not_over() {
    assert!(!exhausted(1));
    assert!(!exhausted(50));
    assert!(!exhausted(usize::MAX));
}

#[test]
fn a_miss_ends_in_the_background() {
    assert_eq!(step(1, Event::Miss), Step::Done(Outcome::Background));
    assert_eq!(step(10, Event::Miss), Step::Done(Outcome::Background));
}

#[test]
fn an_absorbing_surface_ends_in_its_emission() {
    assert_eq!(step(1, Event::Absorb), Step::Done(Outcome::Emission));
    assert_eq!(step(10, Event::Absorb), Step::Done(Outcome::Emission));
}

#[test]
fn a_scatter_costs_one_bounce() {
    assert_eq!(step(1, Event::Scatter), Step::Continue(0));
    assert_eq!(step(10, Event::Scatter), Step::Continue(9));
    assert_eq!(step(usize::MAX, Event::Scatter), Step::Continue(usize::MAX - 1));
}

#[test]
fn a_path_of_mirrors_ends_black_after_its_budget() {
    let mirrors = [Event::Scatter; 100];
    assert_eq!(follow(0, &mirrors), (0, Some(Outcome::Black)));
    assert_eq!(follow(1, &mirrors), (1, Some(Outcome::Black)));
    assert_eq!(follow(10, &mirrors), (10, Some(Outcome::Black)));
    assert_eq!(follow(50, &mirrors), (50, Some(Outcome::Black)));
}

#[test]
fn a_path_ends_at_the_first_light_or_miss() {
    let events = [Event::Scatter, Event::Scatter, Event::Absorb, Event::Miss, Event::Scatter];
    assert_eq!(follow(10, &events), (3, Some(Outcome::Emission)));
    assert_eq!(follow(3, &events), (3, Some(Outcome::Emission)));
    assert_eq!(follow(2, &events), (2, Some(Outcome::Black)));
    let events = [Event::Scatter, Event::Miss, Event::Absorb];
    assert_eq!(follow(10, &events), (2, Some(Outcome::Background)));
    assert_eq!(follow(1, &events), (1, Some(Outcome::Black)));
}

#[test]
fn a_light_seen_directly_ends_the_path_at_once() {
    assert_eq!(follow(1, &[Event::Absorb]), (1, Some(Outcome::Emission)));
    assert_eq!(follow(1, &[Event::Miss]), (1, Some(Outcome::Background)));
}

#[test]
fn a_path_goes_on_while_events_and_budget_last() {
    assert_eq!(follow(5, &[Event::Scatter, Event::Scatter]), (2, None));
    assert_eq!(follow(5, &[]), (0, None));
}

#[test]
fn what_a_ray_meets() {
    assert_eq!(meet(None), Event::Miss);
    assert_eq!(meet(Some((MaterialKind::DiffuseLight, true))), Event::Absorb);
    assert_eq!(meet(Some((MaterialKind::DiffuseLight, false))), Event::Absorb);
    assert_eq!(meet(Some((MaterialKind::Lambertian, true))), Event::Scatter);
    assert_eq!(meet(Some((MaterialKind::Lambertian, false))), Event::Scatter);
    assert_eq!(meet(Some((MaterialKind::Dielectric, false))), Event::Scatter);
    assert_eq!(meet(Some((MaterialKind::Dielectric, true))), Event::Scatter);
    assert_eq!(meet(Some((MaterialKind::Metal, true))), Event::Scatter);
    assert_eq!(meet(Some((MaterialKind::Metal, false))), Event::Absorb);
}

#[test]
fn a_frame_filled_by_a_light_shows_its_emission() {
    let seen = meet(Some((MaterialKind::DiffuseLight, true)));
    assert_eq!(step(1, seen), Step::Done(Outcome::Emission));
    assert_eq!(follow(1, &[seen, Event::Scatter, Event::Miss]), (1, Some(Outcome::Emission)));
}
