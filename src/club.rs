use vstd::prelude::*;

verus! {

/// Where a club is based.
#[derive(Clone, Copy, Debug, PartialEq, Eq, Structural)]
pub struct Location {
    pub city_id: u32,
}

/// The squads a club runs.
#[derive(Clone, Copy, Debug, PartialEq, Eq, Structural)]
pub enum TeamType {
    Main,
    B,
    U18,
    U19,
    U21,
    U23,
}

/// One squad of a club.
#[derive(Clone, Copy, Debug, PartialEq, Eq, Structural)]
pub struct Team {
    pub id: u32,
    pub team_type: TeamType,
    /// What the squad's contracts cost a week.
    pub weekly_salary: u32,
}

/// What one squad reports after a simulated unit of time.
#[derive(Clone, Copy, Debug, PartialEq, Eq, Structural)]
pub struct TeamResult {
    pub team_id: u32,
}

/// The simulated calendar as the club sees it.
#[derive(Clone, Copy, Debug, PartialEq, Eq, Structural)]
pub struct GlobalContext {
    pub week_beginning: bool,
}

impl GlobalContext {
    pub fn is_week_beginning(&self) -> (r: bool)
        ensures
            r == self.week_beginning,
    {
        self.week_beginning
    }
}

impl Team {
    pub fn new(id: u32, team_type: TeamType, weekly_salary: u32) -> (r: Team)
        ensures
            r == (Team { id, team_type, weekly_salary }),
    {
        Team { id, team_type, weekly_salary }
    }

    pub fn get_week_salary(&self) -> (r: u32)
        ensures
            r == self.weekly_salary,
    {
        self.weekly_salary
    }

    /// Advances the squad by one unit of time and reports on it.
    pub fn simulate(&self, ctx: &GlobalContext) -> (r: TeamResult)
        ensures
            r == (TeamResult { team_id: self.id }),
    {
        TeamResult { team_id: self.id }
    }
}

/// The club's accounts: its balance and the salary payments booked so far.
#[derive(Debug)]
pub struct ClubFinances {
    pub balance: i64,
    pub salaries: Vec<i32>,
}

impl ClubFinances {
    pub fn new(balance: i64) -> (r: ClubFinances)
        ensures
            r.balance == balance,
            r.salaries@ == Seq::<i32>::empty(),
    {
        ClubFinances { balance, salaries: Vec::new() }
    }

    /// Books one salary payment.
    pub fn push_salary(&mut self, amount: i32)
        ensures
            final(self).balance == old(self).balance,
            final(self).salaries@ == old(self).salaries@.push(amount),
    {
        self.salaries.push(amount);
    }
}

/// The club's youth academy.
#[derive(Clone, Copy, Debug, PartialEq, Eq, Structural)]
pub struct ClubAcademy {
    pub level: u8,
}

impl ClubAcademy {
    pub fn new(level: u8) -> (r: ClubAcademy)
        ensures
            r.level == level,
    {
        ClubAcademy { level }
    }
}

/// The club's board of directors.
#[derive(Clone, Copy, Debug, PartialEq, Eq, Structural)]
pub struct ClubBoard {}

/// The club's general mood.
#[derive(Clone, Copy, Debug, PartialEq, Eq, Structural)]
pub struct ClubMood {}

/// The academy level a new club starts with.
pub const NEW_CLUB_ACADEMY_LEVEL: u8 = 10;

#[derive(Debug)]
pub struct Club {
    pub id: u32,
    pub name: String,
    pub location: Location,
    pub mood: ClubMood,
    pub board: ClubBoard,
    pub finance: ClubFinances,
    pub academy: ClubAcademy,
    pub teams: Vec<Team>,
}

/// What a club reports after a simulated unit of time: one result per squad.
#[derive(Debug)]
pub struct ClubResult {
    pub teams: Vec<TeamResult>,
}

/// The weekly salaries of the squads, in squad order, as booked payments.
pub open spec fn weekly_salaries(teams: Seq<Team>) -> Seq<i32> {
    teams.map_values(|t: Team| t.weekly_salary as i32)
}

/// The report of each squad, in squad order.
pub open spec fn team_reports(teams: Seq<Team>) -> Seq<TeamResult> {
    teams.map_values(|t: Team| TeamResult { team_id: t.id })
}

/// The first index that holds the main squad.
pub open spec fn is_first_main(teams: Seq<Team>, i: int) -> bool {
    &&& 0 <= i < teams.len()
    &&& teams[i].team_type == TeamType::Main
    &&& forall|j: int| 0 <= j < i ==> #[trigger] teams[j].team_type != TeamType::Main
}

impl Club {
    pub fn new(id: u32, name: String, location: Location, finance: ClubFinances, teams: Vec<
        Team,
    >) -> (r: Club)
        ensures
            r.id == id,
            r.name@ == name@,
            r.location == location,
            r.finance.balance == finance.balance,
            r.finance.salaries@ == finance.salaries@,
            r.academy.level == NEW_CLUB_ACADEMY_LEVEL,
            r.teams@ == teams@,
    {
        Club {
            id,
            name,
            location,
            finance,
            academy: ClubAcademy::new(NEW_CLUB_ACADEMY_LEVEL),
            mood: ClubMood {},
            board: ClubBoard {},
            teams,
        }
    }

    /// The id of the first main squad, if the club has one.
    pub fn main_team_id(&self) -> (r: Option<u32>)
        ensures
            r is None <==> forall|j: int|
                0 <= j < self.teams@.len() ==> #[trigger] self.teams@[j].team_type
                    != TeamType::Main,
            r matches Some(id) ==> exists|i: int|
                is_first_main(self.teams@, i) && self.teams@[i].id == id,
    {
        let n = self.teams.len();
        let mut i: usize = 0;
        while i < n
            invariant
                n == self.teams@.len(),
                i <= n,
                forall|j: int| 0 <= j < i ==> #[trigger] self.teams@[j].team_type != TeamType::Main,
            decreases n - i,
        {
            if self.teams[i].team_type == TeamType::Main {
                assert(is_first_main(self.teams@, i as int));
                return Some(self.teams[i].id);
            }
            i = i + 1;
        }
        None
    }

    /// Advances every squad by one unit of time; at the start of a week, books
    /// each squad's weekly salary in squad order.
    pub fn simulate(&mut self, ctx: &GlobalContext) -> (r: ClubResult)
        ensures
            r.teams@ == team_reports(old(self).teams@),
            final(self).id == old(self).id,
            final(self).name@ == old(self).name@,
            final(self).location == old(self).location,
            final(self).academy == old(self).academy,
            final(self).teams@ == old(self).teams@,
            final(self).finance.balance == old(self).finance.balance,
            final(self).finance.salaries@ == if ctx.week_beginning {
                old(self).finance.salaries@ + weekly_salaries(old(self).teams@)
            } else {
                old(self).finance.salaries@
            },
    {
        let n = self.teams.len();
        let mut teams: Vec<TeamResult> = Vec::new();
        let mut i: usize = 0;
        while i < n
            invariant
                n == self.teams@.len(),
                i <= n,
                teams@ =~= team_reports(self.teams@).subrange(0, i as int),
            decreases n - i,
        {
            teams.push(self.teams[i].simulate(ctx));
            i = i + 1;
        }
        if ctx.is_week_beginning() {
            let ghost before = self.finance.salaries@;
            let mut k: usize = 0;
            while k < n
                invariant
                    n == self.teams@.len(),
                    k <= n,
                    self.id == old(self).id,
                    self.name@ == old(self).name@,
                    self.location == old(self).location,
                    self.academy == old(self).academy,
                    self.teams@ == old(self).teams@,
                    self.finance.balance == old(self).finance.balance,
                    before == old(self).finance.salaries@,
                    self.finance.salaries@ =~= before + weekly_salaries(self.teams@).subrange(
                        0,
                        k as int,
                    ),
                decreases n - k,
            {
                let weekly_salary = self.teams[k].get_week_salary();
                self.finance.push_salary(weekly_salary as i32);
                k = k + 1;
            }
            assert(weekly_salaries(self.teams@).subrange(0, n as int) =~= weekly_salaries(
                self.teams@,
            ));
        }
        assert(team_reports(self.teams@).subrange(0, n as int) =~= team_reports(self.teams@));
        ClubResult { teams }
    }
}

} // verus!
