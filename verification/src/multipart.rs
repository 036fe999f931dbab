//! Uploaded files: where they are kept, how a kept file is moved, and how
//! the dated upload directories are sorted out to find expired ones.
use vstd::prelude::*;

use crate::error::{Error, ErrorType};
use crate::path::{join, join_path};
use crate::table::{keys_unique, table_insert, table_map};
use crate::text::{chars_of, dec, fmt_u128, parse_i32, parse_signed, push_all, string_of, text_with};

verus! {

/// A file received in an upload and kept on disk.
#[derive(Debug)]
pub struct SavedFile {
    pub name: String,
    pub path: String,
    pub size: u64,
    pub content_type: Option<String>,
    pub moved_path: Option<String>,
    pub moved: bool,
}

impl SavedFile {
    /// Whether the file may be moved to a destination: when the
    /// destination exists, it must be replaced (else `FileExists`) and must
    /// not be a directory (else `IsADirectory`).
    pub fn check_move(dest: &str, dest_exists: bool, dest_is_dir: bool, replace: bool) -> (r: Result<(), Error>)
        ensures
            match r {
                Ok(()) => !dest_exists || (replace && !dest_is_dir),
                Err(e) => dest_exists && if !replace {
                    e@ == (ErrorType::FileExists, "File already exists: "@ + dest@)
                } else {
                    dest_is_dir && e@ == (ErrorType::IsADirectory, "Destination is a directory: "@ + dest@)
                },
            },
    {
        let d = chars_of(dest);
        if dest_exists {
            if !replace {
                return Err(Error { error_type: ErrorType::FileExists, message: text_with("File already exists: ", &d) });
            }
            if dest_is_dir {
                return Err(Error { error_type: ErrorType::IsADirectory, message: text_with("Destination is a directory: ", &d) });
            }
        }
        Ok(())
    }

    /// Records that the file was moved to the destination.
    pub fn mark_moved(&mut self, dest: &str)
        ensures
            final(self).moved,
            final(self).moved_path matches Some(p) && p@ == dest@,
            final(self).name == old(self).name,
            final(self).path == old(self).path,
            final(self).size == old(self).size,
            final(self).content_type == old(self).content_type,
    {
        let d = chars_of(dest);
        self.moved = true;
        self.moved_path = Some(string_of(&d));
    }
}

/// The form fields and files of an upload.
#[derive(Debug)]
pub struct MultipartData {
    pub fields: Vec<(String, String)>,
    pub files: Vec<(String, SavedFile)>,
}

impl MultipartData {
    /// An upload with no field and no file yet.
    pub fn new() -> (r: MultipartData)
        ensures
            r.fields@.len() == 0,
            r.files@.len() == 0,
    {
        MultipartData { fields: Vec::new(), files: Vec::new() }
    }

    /// No form field and no file name occurs twice.
    pub open spec fn well_formed(&self) -> bool {
        keys_unique(self.fields@) && keys_unique(self.files@)
    }

    /// Records a text field read from the upload; a later field of the
    /// same name replaces an earlier one.
    pub fn insert_field(&mut self, name: String, value: String)
        requires
            old(self).well_formed(),
        ensures
            final(self).well_formed(),
            table_map(final(self).fields@) == table_map(old(self).fields@).insert(name@, value),
            final(self).files@ == old(self).files@,
    {
        table_insert(&mut self.fields, name, value);
    }

    /// Records a file saved from the upload under its field name; a later
    /// file of the same field name replaces an earlier one.
    pub fn insert_file(&mut self, name: String, file: SavedFile)
        requires
            old(self).well_formed(),
        ensures
            final(self).well_formed(),
            table_map(final(self).files@) == table_map(old(self).files@).insert(name@, file),
            final(self).fields@ == old(self).fields@,
    {
        table_insert(&mut self.files, name, file);
    }
}

/// When a cleanup of an upload directory ran, in milliseconds, and how
/// many entries it removed.
#[derive(Debug, Clone)]
pub struct CleanUpMetaData {
    pub temp_dir: String,
    pub start: u64,
    pub end: u64,
    pub count: usize,
}

/// The upload directory of one day.
#[derive(Debug, Clone)]
pub struct DayBased {
    pub day: i32,
    pub path: String,
}

impl DayBased {
    /// Whether the day is before the given day of the month.
    pub fn is_expired(&self, today: i32) -> (r: bool)
        ensures
            r == (self.day < today),
    {
        self.day < today
    }
}

/// The upload directories of one month.
#[derive(Debug, Clone)]
pub struct MonthBased {
    pub month: i32,
    pub days: Vec<DayBased>,
    pub invalid: Vec<String>,
}

impl MonthBased {
    /// Whether the month is before the given month.
    pub fn is_expired(&self, this_month: i32) -> (r: bool)
        ensures
            r == (self.month < this_month),
    {
        self.month < this_month
    }

    /// The days before the given day of the month, in their order.
    pub fn find_expires(&self, today: i32) -> (r: Vec<&DayBased>)
        ensures
            r@.map_values(|x: &DayBased| *x) == self.days@.filter(|d: DayBased| d.day < today),
    {
        let mut r: Vec<&DayBased> = Vec::new();
        let mut i: usize = 0;
        while i < self.days.len()
            invariant
                0 <= i <= self.days@.len(),
                r@.map_values(|x: &DayBased| *x) == self.days@.take(i as int).filter(|d: DayBased| d.day < today),
            decreases self.days@.len() - i,
        {
            proof {
                reveal(Seq::filter);
                assert(self.days@.take(i + 1).drop_last() =~= self.days@.take(i as int));
            }
            if self.days[i].is_expired(today) {
                r.push(&self.days[i]);
            }
            i = i + 1;
        }
        assert(self.days@.take(self.days@.len() as int) =~= self.days@);
        r
    }
}

/// The upload directories of one year.
#[derive(Debug, Clone)]
pub struct YearBased {
    pub year: i32,
    pub months: Vec<MonthBased>,
    pub invalid: Vec<String>,
}

impl YearBased {
    /// Whether the year is before the given year.
    pub fn is_expired(&self, this_year: i32) -> (r: bool)
        ensures
            r == (self.year < this_year),
    {
        self.year < this_year
    }

    /// The months before the given month, in their order.
    pub fn find_expires(&self, this_month: i32) -> (r: Vec<&MonthBased>)
        ensures
            r@.map_values(|x: &MonthBased| *x) == self.months@.filter(|m: MonthBased| m.month < this_month),
    {
        let mut r: Vec<&MonthBased> = Vec::new();
        let mut i: usize = 0;
        while i < self.months.len()
            invariant
                0 <= i <= self.months@.len(),
                r@.map_values(|x: &MonthBased| *x) == self.months@.take(i as int).filter(|m: MonthBased| m.month < this_month),
            decreases self.months@.len() - i,
        {
            proof {
                reveal(Seq::filter);
                assert(self.months@.take(i + 1).drop_last() =~= self.months@.take(i as int));
            }
            if self.months[i].is_expired(this_month) {
                r.push(&self.months[i]);
            }
            i = i + 1;
        }
        assert(self.months@.take(self.months@.len() as int) =~= self.months@);
        r
    }
}

/// The dated upload directories, and what did not look dated.
#[derive(Debug, Clone)]
pub struct ScanDirVisitor {
    pub years: Vec<YearBased>,
    pub global_invalid: Vec<String>,
}

impl ScanDirVisitor {
    /// The years before the given year, in their order.
    pub fn find_expires(&self, this_year: i32) -> (r: Vec<&YearBased>)
        ensures
            r@.map_values(|x: &YearBased| *x) == self.years@.filter(|y: YearBased| y.year < this_year),
    {
        let mut r: Vec<&YearBased> = Vec::new();
        let mut i: usize = 0;
        while i < self.years.len()
            invariant
                0 <= i <= self.years@.len(),
                r@.map_values(|x: &YearBased| *x) == self.years@.take(i as int).filter(|y: YearBased| y.year < this_year),
            decreases self.years@.len() - i,
        {
            proof {
                reveal(Seq::filter);
                assert(self.years@.take(i + 1).drop_last() =~= self.years@.take(i as int));
            }
            if self.years[i].is_expired(this_year) {
                r.push(&self.years[i]);
            }
            i = i + 1;
        }
        assert(self.years@.take(self.years@.len() as int) =~= self.years@);
        r
    }
}

/// A directory entry found under the upload directory: its file name, its
/// path, and, for the year and month levels, the entries in it.
#[derive(Debug)]
pub struct DirEntry {
    pub name: String,
    pub path: String,
    pub children: Vec<DirEntry>,
}

/// `name.parse::<i32>()`.
pub open spec fn number_of(name: Seq<char>) -> Option<i32> {
    match parse_signed(name, i32::MIN as int, i32::MAX as int) {
        Some(v) => Some(v as i32),
        None => None,
    }
}

fn number_in(name: &String) -> (r: Option<i32>)
    ensures
        r == number_of(name@),
{
    let cs = chars_of(name.as_str());
    parse_i32(&cs)
}

fn copy_text(s: &String) -> (r: String)
    ensures
        r@ == s@,
{
    s.clone()
}

/// The days and invalid entries among month entries.
pub open spec fn month_children(c: Seq<DirEntry>) -> (Seq<(i32, Seq<char>)>, Seq<Seq<char>>)
    decreases c.len(),
{
    if c.len() == 0 {
        (Seq::empty(), Seq::empty())
    } else {
        let (d, inv) = month_children(c.drop_last());
        match number_of(c.last().name@) {
            Some(n) => (d.push((n, c.last().path@)), inv),
            None => (d, inv.push(c.last().path@)),
        }
    }
}

/// The days of a month, as (day, path).
pub open spec fn day_views(v: Seq<DayBased>) -> Seq<(i32, Seq<char>)> {
    Seq::new(v.len(), |i: int| (v[i].day, v[i].path@))
}

/// The paths of strings.
pub open spec fn path_views(v: Seq<String>) -> Seq<Seq<char>> {
    Seq::new(v.len(), |i: int| v[i]@)
}

fn scan_month(month: i32, e: &DirEntry) -> (r: MonthBased)
    ensures
        r.month == month,
        (day_views(r.days@), path_views(r.invalid@)) == month_children(e.children@),
{
    let mut days: Vec<DayBased> = Vec::new();
    let mut invalid: Vec<String> = Vec::new();
    let mut i: usize = 0;
    while i < e.children.len()
        invariant
            0 <= i <= e.children@.len(),
            (day_views(days@), path_views(invalid@)) == month_children(e.children@.take(i as int)),
        decreases e.children@.len() - i,
    {
        assert(e.children@.take(i + 1).drop_last() =~= e.children@.take(i as int));
        let c = &e.children[i];
        let ghost d0 = days@;
        let ghost i0 = invalid@;
        match number_in(&c.name) {
            Some(n) => {
                days.push(DayBased { day: n, path: copy_text(&c.path) });
                assert(day_views(days@) =~= day_views(d0).push((n, c.path@)));
            },
            None => {
                invalid.push(copy_text(&c.path));
                assert(path_views(invalid@) =~= path_views(i0).push(c.path@));
            },
        }
        i = i + 1;
    }
    assert(e.children@.take(e.children@.len() as int) =~= e.children@);
    MonthBased { month, days, invalid }
}

/// What a year entry's months say: for each month entry named by a
/// number, its month and days; the other entries are invalid.
pub open spec fn year_children(c: Seq<DirEntry>) -> (Seq<(i32, Seq<(i32, Seq<char>)>, Seq<Seq<char>>)>, Seq<Seq<char>>)
    decreases c.len(),
{
    if c.len() == 0 {
        (Seq::empty(), Seq::empty())
    } else {
        let (m, inv) = year_children(c.drop_last());
        match number_of(c.last().name@) {
            Some(n) => (m.push((n, month_children(c.last().children@).0, month_children(c.last().children@).1)), inv),
            None => (m, inv.push(c.last().path@)),
        }
    }
}

/// The months of a year, as (month, days, invalid).
pub open spec fn month_views(v: Seq<MonthBased>) -> Seq<(i32, Seq<(i32, Seq<char>)>, Seq<Seq<char>>)> {
    Seq::new(v.len(), |i: int| (v[i].month, day_views(v[i].days@), path_views(v[i].invalid@)))
}

fn scan_year(year: i32, e: &DirEntry) -> (r: YearBased)
    ensures
        r.year == year,
        (month_views(r.months@), path_views(r.invalid@)) == year_children(e.children@),
{
    let mut months: Vec<MonthBased> = Vec::new();
    let mut invalid: Vec<String> = Vec::new();
    let mut i: usize = 0;
    while i < e.children.len()
        invariant
            0 <= i <= e.children@.len(),
            (month_views(months@), path_views(invalid@)) == year_children(e.children@.take(i as int)),
        decreases e.children@.len() - i,
    {
        assert(e.children@.take(i + 1).drop_last() =~= e.children@.take(i as int));
        let c = &e.children[i];
        let ghost m0 = months@;
        let ghost i0 = invalid@;
        match number_in(&c.name) {
            Some(n) => {
                let m = scan_month(n, c);
                months.push(m);
                assert(month_views(months@) =~= month_views(m0).push((n, month_children(c.children@).0, month_children(c.children@).1)));
            },
            None => {
                invalid.push(copy_text(&c.path));
                assert(path_views(invalid@) =~= path_views(i0).push(c.path@));
            },
        }
        i = i + 1;
    }
    assert(e.children@.take(e.children@.len() as int) =~= e.children@);
    YearBased { year, months, invalid }
}

/// What the upload directory's entries say: for each entry named by a
/// number, its year and months; the other entries are invalid.
pub open spec fn top_children(c: Seq<DirEntry>) -> (Seq<(i32, Seq<(i32, Seq<(i32, Seq<char>)>, Seq<Seq<char>>)>, Seq<Seq<char>>)>, Seq<Seq<char>>)
    decreases c.len(),
{
    if c.len() == 0 {
        (Seq::empty(), Seq::empty())
    } else {
        let (y, inv) = top_children(c.drop_last());
        match number_of(c.last().name@) {
            Some(n) => (y.push((n, year_children(c.last().children@).0, year_children(c.last().children@).1)), inv),
            None => (y, inv.push(c.last().path@)),
        }
    }
}

/// The years, as (year, months, invalid).
pub open spec fn year_views(v: Seq<YearBased>) -> Seq<(i32, Seq<(i32, Seq<(i32, Seq<char>)>, Seq<Seq<char>>)>, Seq<Seq<char>>)> {
    Seq::new(v.len(), |i: int| (v[i].year, month_views(v[i].months@), path_views(v[i].invalid@)))
}

/// Where uploads are kept.
#[derive(Debug, Clone)]
pub struct Multipart {
    temp_dir: String,
}

impl View for Multipart {
    type V = Seq<char>;

    /// The upload directory.
    closed spec fn view(&self) -> Seq<char> {
        self.temp_dir@
    }
}

impl Multipart {
    /// Uploads kept under the given directory.
    pub fn new(temp_dir: &str) -> (r: Multipart)
        ensures
            r@ == temp_dir@,
    {
        let t = chars_of(temp_dir);
        Multipart { temp_dir: string_of(&t) }
    }

    /// The upload directory.
    pub fn temp_dir(&self) -> (r: &str)
        ensures
            r@ == self@,
    {
        self.temp_dir.as_str()
    }

    /// Whether a recursive removal stops at a path before removing it: it
    /// does for a path that lies within the upload directory, component by
    /// component as `Path::starts_with` compares.
    pub fn removal_stops_at(&self, path: &str) -> (r: bool)
        ensures
            r == crate::path::path_starts_with(path@, self@),
    {
        crate::path::starts_with_path(path, self.temp_dir.as_str())
    }

    /// The dated directory of a day: `year/month/day`.
    pub fn generate_folder_name(year: i32, month: u32, day: u32) -> (r: String)
        ensures
            r@ == crate::text::dec_int(year as int) + "/"@ + dec(month as nat) + "/"@ + dec(day as nat),
    {
        let mut t = crate::text::fmt_i128(year as i128);
        t.push('/');
        let m = fmt_u128(month as u128);
        push_all(&mut t, &m);
        t.push('/');
        let d = fmt_u128(day as u128);
        push_all(&mut t, &d);
        proof {
            reveal_strlit("/");
        }
        string_of(&t)
    }

    /// Where an upload of the given day and name is kept: the day's
    /// directory under the upload directory, and the file in it.
    pub fn generate_file_path(&self, year: i32, month: u32, day: u32, name: &str) -> (r: (String, String))
        ensures
            r.0@ == join_path(self@, crate::text::dec_int(year as int) + "/"@ + dec(month as nat) + "/"@ + dec(day as nat)),
            r.1@ == join_path(r.0@, name@),
    {
        let folder = Self::generate_folder_name(year, month, day);
        let dir = join(self.temp_dir.as_str(), folder.as_str());
        let file = join(dir.as_str(), name);
        (dir, file)
    }

    /// Sorts the entries of the upload directory into years, months and
    /// days by their names, keeping those that are no number as invalid.
    pub fn scan_entries(entries: &Vec<DirEntry>) -> (r: ScanDirVisitor)
        ensures
            (year_views(r.years@), path_views(r.global_invalid@)) == top_children(entries@),
    {
        let mut years: Vec<YearBased> = Vec::new();
        let mut invalid: Vec<String> = Vec::new();
        let mut i: usize = 0;
        while i < entries.len()
            invariant
                0 <= i <= entries@.len(),
                (year_views(years@), path_views(invalid@)) == top_children(entries@.take(i as int)),
            decreases entries@.len() - i,
        {
            assert(entries@.take(i + 1).drop_last() =~= entries@.take(i as int));
            let c = &entries[i];
            let ghost y0 = years@;
            let ghost i0 = invalid@;
            match number_in(&c.name) {
                Some(n) => {
                    let y = scan_year(n, c);
                    years.push(y);
                    assert(year_views(years@) =~= year_views(y0).push((n, year_children(c.children@).0, year_children(c.children@).1)));
                },
                None => {
                    invalid.push(copy_text(&c.path));
                    assert(path_views(invalid@) =~= path_views(i0).push(c.path@));
                },
            }
            i = i + 1;
        }
        assert(entries@.take(entries@.len() as int) =~= entries@);
        ScanDirVisitor { years, global_invalid: invalid }
    }
}

} // verus!
