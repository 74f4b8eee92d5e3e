use football_engine::club::{
    Club, ClubFinances, GlobalContext, Location, Team, TeamResult, TeamType,
};

fn club() -> Club {
    Club::new(
        7,
        String::from("Rovers"),
        Location { city_id: 3 },
        ClubFinances::new(1000),
        vec![
            Team::new(11, TeamType::U21, 300),
            Team::new(12, TeamType::Main, 900),
            Team::new(13, TeamType::Main, 50),
        ],
    )
}

#[test]
fn new_club_starts_with_academy_level_ten() {
    let c = club();
    assert_eq!(c.id, 7);
    assert_eq!(c.name, "Rovers");
    assert_eq!(c.academy.level, 10);
    assert_eq!(c.teams.len(), 3);
    assert!(c.finance.salaries.is_empty());
}

#[test]
fn main_team_id_is_the_first_main_squad() {
    assert_eq!(club().main_team_id(), Some(12));
    let mut c = club();
    c.teams.remove(1);
    c.teams.remove(1);
    assert_eq!(c.main_team_id(), None);
}

#[test]
fn week_beginning_books_salaries_in_squad_order() {
    let mut c = club();
    let r = c.simulate(&GlobalContext { week_beginning: true });
    assert_eq!(
        r.teams,
        vec![TeamResult { team_id: 11 }, TeamResult { team_id: 12 }, TeamResult { team_id: 13 }]
    );
    assert_eq!(c.finance.salaries, vec![300, 900, 50]);
    assert_eq!(c.finance.balance, 1000);
}

#[test]
fn other_days_book_no_salary() {
    let mut c = club();
    let r = c.simulate(&GlobalContext { week_beginning: false });
    assert_eq!(r.teams.len(), 3);
    assert!(c.finance.salaries.is_empty());
}
