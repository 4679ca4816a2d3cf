use vstd::prelude::*;

verus! {

/// Page layout of a site.
#[derive(Debug, Clone, Copy, PartialEq, Eq, Structural)]
pub enum Layout {
    Wikidot,
    Wikijump,
}

/// Kind of account.
#[derive(Debug, Clone, Copy, PartialEq, Eq, Structural)]
pub enum UserType {
    Regular,
    System,
    Site,
    Bot,
}

pub open spec fn is_leap_year(year: int) -> bool {
    (year % 4 == 0 && year % 100 != 0) || year % 400 == 0
}

pub open spec fn days_in_month(year: int, month: int) -> int {
    if month == 2 {
        if is_leap_year(year) {
            29
        } else {
            28
        }
    } else if month == 4 || month == 6 || month == 9 || month == 11 {
        30
    } else {
        31
    }
}

pub open spec fn is_valid_date(year: int, month: int, day: int) -> bool {
    1 <= month <= 12 && 1 <= day <= days_in_month(year, month)
}

/// A calendar date of the proleptic Gregorian calendar.
#[derive(Debug, Clone, Copy, PartialEq, Eq, Structural)]
pub struct Date {
    year: i32,
    month: u8,
    day: u8,
}

impl Date {
    pub open spec fn wf(&self) -> bool {
        is_valid_date(self.spec_year() as int, self.spec_month() as int, self.spec_day() as int)
    }

    pub closed spec fn spec_year(&self) -> i32 {
        self.year
    }

    pub closed spec fn spec_month(&self) -> u8 {
        self.month
    }

    pub closed spec fn spec_day(&self) -> u8 {
        self.day
    }

    /// The date with these parts, if it exists.
    pub fn new(year: i32, month: u8, day: u8) -> (r: Option<Date>)
        ensures
            is_valid_date(year as int, month as int, day as int) ==> (r matches Some(d) && d.wf()
                && d.spec_year() == year && d.spec_month() == month && d.spec_day() == day),
            !is_valid_date(year as int, month as int, day as int) ==> r is None,
    {
        if month < 1 || month > 12 || day < 1 {
            return None;
        }
        let leap = (year % 4 == 0 && year % 100 != 0) || year % 400 == 0;
        let days: u8 = if month == 2 {
            if leap {
                29
            } else {
                28
            }
        } else if month == 4 || month == 6 || month == 9 || month == 11 {
            30
        } else {
            31
        };
        if day > days {
            return None;
        }
        Some(Date { year, month, day })
    }

    pub fn year(&self) -> (r: i32)
        ensures
            r == self.spec_year(),
    {
        self.year
    }

    pub fn month(&self) -> (r: u8)
        ensures
            r == self.spec_month(),
    {
        self.month
    }

    pub fn day(&self) -> (r: u8)
        ensures
            r == self.spec_day(),
    {
        self.day
    }
}

/// A user to seed.
#[derive(Debug)]
pub struct User {
    pub id: i64,
    pub name: String,
    pub slug: String,
    pub email: String,
    pub user_type: UserType,
    pub password: Option<String>,
    pub locales: Vec<String>,
    pub real_name: Option<String>,
    pub gender: Option<String>,
    pub birthday: Option<Date>,
    pub location: Option<String>,
    pub biography: Option<String>,
    pub user_page: Option<String>,
    pub aliases: Vec<String>,
}

/// A site to seed.
#[derive(Debug)]
pub struct Site {
    pub slug: String,
    pub aliases: Vec<String>,
    pub domains: Vec<String>,
    pub name: String,
    pub tagline: String,
    pub description: String,
    pub default_page: Option<String>,
    pub layout: Option<Layout>,
    pub locale: String,
}

/// A page to seed; its wikitext is read from the file named by `wikitext_filename`.
#[derive(Debug)]
pub struct Page {
    pub slug: String,
    pub title: String,
    pub alt_title: Option<String>,
    pub wikitext: String,
    pub wikitext_filename: String,
}

/// A text filter to seed.
#[derive(Debug)]
pub struct Filter {
    pub regex: String,
    pub description: String,
    pub case_sensitive: bool,
    pub site_slug: Option<String>,
    pub user: bool,
    pub email: bool,
    pub page: bool,
    pub file: bool,
    pub forum: bool,
}

/// A file to seed.
#[derive(Debug)]
pub struct File {
    pub name: String,
    pub path: String,
    pub overwrite: Option<String>,
    pub deleted: bool,
}

pub open spec fn has_site(sites: Seq<Site>, slug: Seq<char>) -> bool {
    exists|i: int| 0 <= i < sites.len() && #[trigger] sites[i].slug@ == slug
}

/// Whether a site with this slug is among `sites`.
pub fn site_exists(sites: &Vec<Site>, slug: &String) -> (r: bool)
    ensures
        r == has_site(sites@, slug@),
{
    let mut i: usize = 0;
    while i < sites.len()
        invariant
            i <= sites@.len(),
            forall|k: int| 0 <= k < i ==> #[trigger] sites@[k].slug@ != slug@,
        decreases sites@.len() - i,
    {
        if sites[i].slug == *slug {
            return true;
        }
        i = i + 1;
    }
    false
}

/// The first of `page_sites` that names no site of `sites`, if any: pages
/// may only be seeded into sites that exist.
pub fn first_unknown_site(sites: &Vec<Site>, page_sites: &Vec<String>) -> (r: Option<usize>)
    ensures
        match r {
            Some(i) => i < page_sites@.len() && !has_site(sites@, page_sites@[i as int]@) && forall|
                k: int,
            | 0 <= k < i ==> has_site(sites@, #[trigger] page_sites@[k]@),
            None => forall|k: int|
                0 <= k < page_sites@.len() ==> has_site(sites@, #[trigger] page_sites@[k]@),
        },
{
    let mut i: usize = 0;
    while i < page_sites.len()
        invariant
            i <= page_sites@.len(),
            forall|k: int| 0 <= k < i ==> has_site(sites@, #[trigger] page_sites@[k]@),
        decreases page_sites@.len() - i,
    {
        if !site_exists(sites, &page_sites[i]) {
            return Some(i);
        }
        i = i + 1;
    }
    None
}

} // verus!
