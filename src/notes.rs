use vstd::prelude::*;
use vstd::string::StringExecFns;
use crate::clock::NoteTime;
use crate::templates::{opt_seq, TemplateError};
use crate::text::{padded_decimal, push_padded, replace_all, replaced};

verus! {

/// The year as chrono's `%Y` writes it: four digits for years 0 to 9999,
/// otherwise a sign and at least four digits.
pub open spec fn year_text(y: int) -> Seq<char> {
    if 0 <= y <= 9999 {
        padded_decimal(y as nat, 4)
    } else if y < 0 {
        "-"@ + padded_decimal((-y) as nat, 4)
    } else {
        "+"@ + padded_decimal(y as nat, 4)
    }
}

/// The note identifier `YYYYMMDDHHmm`, every field zero-padded.
///
/// It is exact to the minute: two permanent notes with the same title made
/// within one minute get the same path, and the later replaces the earlier.
pub open spec fn timestamp_text(t: NoteTime) -> Seq<char> {
    year_text(t.year as int) + padded_decimal(t.month as nat, 2) + padded_decimal(t.day as nat, 2)
        + padded_decimal(t.hour as nat, 2) + padded_decimal(t.minute as nat, 2)
}

impl NoteTime {
    /// The identifier that names a permanent note created at this time.
    pub fn timestamp_token(&self) -> (r: String)
        requires
            self.wf(),
        ensures
            r@ == timestamp_text(*self),
    {
        let mut r = String::new();
        if self.year < 0 {
            r.append("-");
            let a: u32 = (0i64 - self.year as i64) as u32;
            push_padded(&mut r, a, 4);
        } else if self.year > 9999 {
            r.append("+");
            push_padded(&mut r, self.year as u32, 4);
        } else {
            push_padded(&mut r, self.year as u32, 4);
        }
        push_padded(&mut r, self.month, 2);
        push_padded(&mut r, self.day, 2);
        push_padded(&mut r, self.hour, 2);
        push_padded(&mut r, self.minute, 2);
        r
    }
}

/// The folder that receives quick notes.
pub open spec fn inbox_dir() -> Seq<char> {
    "000-inbox"@
}

/// The folder that receives permanent notes.
pub open spec fn permanent_dir() -> Seq<char> {
    "100-permanent"@
}

/// The folders of the taxonomy, in order: inbox, permanent, literature,
/// projects, maps.
pub open spec fn required_dir_names() -> Seq<Seq<char>> {
    seq![inbox_dir(), permanent_dir(), "200-literature"@, "300-projects"@, "400-maps"@]
}

/// The folders that make up a Zettelkasten, in the order they are set up.
pub fn required_dirs() -> (r: Vec<String>)
    ensures
        r@.map_values(|d: String| d@) == required_dir_names(),
{
    let r = vec![
        String::from_str("000-inbox"),
        String::from_str("100-permanent"),
        String::from_str("200-literature"),
        String::from_str("300-projects"),
        String::from_str("400-maps"),
    ];
    assert(r@.map_values(|d: String| d@) =~= required_dir_names());
    r
}

/// A note to be written: where, and what.
pub struct NoteFile {
    pub path: String,
    pub content: String,
}

pub open spec fn quick_note_path(title: Seq<char>) -> Seq<char> {
    inbox_dir() + "/"@ + title + ".md"@
}

pub open spec fn permanent_note_path(timestamp: Seq<char>, title: Seq<char>) -> Seq<char> {
    permanent_dir() + "/"@ + timestamp + " - "@ + title + ".md"@
}

/// The template with every `{timestamp}` and then every `{title}` replaced.
pub open spec fn filled(template: Seq<char>, timestamp: Seq<char>, title: Seq<char>) -> Seq<char> {
    replaced(replaced(template, "{timestamp}"@, timestamp), "{title}"@, title)
}

/// A quick note: the title names the file in the inbox and the content is
/// kept exactly as given.
///
/// The title is used as it stands: one holding a path separator names a
/// file outside the inbox.
pub fn create_quick_note(title: &str, content: &str) -> (r: NoteFile)
    ensures
        r.path@ == quick_note_path(title@),
        r.content@ == content@,
{
    let mut path = String::from_str("000-inbox");
    path.append("/");
    path.append(title);
    path.append(".md");
    NoteFile { path, content: String::from_str(content) }
}

/// Substitutes the placeholders of a permanent-note template.
pub fn fill_template(template: &str, timestamp: &str, title: &str) -> (r: String)
    ensures
        r@ == filled(template@, timestamp@, title@),
{
    proof {
        reveal_strlit("{timestamp}");
        reveal_strlit("{title}");
    }
    let once = replace_all(template, "{timestamp}", timestamp);
    replace_all(once.as_str(), "{title}", title)
}

/// The permanent note created at `time` from the loaded template; an error
/// in loading the template is handed back and no note is made.
pub fn create_permanent_note(time: &NoteTime, title: &str, template: Result<String, TemplateError>) -> (r:
    Result<NoteFile, TemplateError>)
    requires
        time.wf(),
    ensures
        match template {
            Ok(t) => r is Ok && r->Ok_0.path@ == permanent_note_path(timestamp_text(*time), title@)
                && r->Ok_0.content@ == filled(t@, timestamp_text(*time), title@),
            Err(e) => r == Err::<NoteFile, TemplateError>(e),
        },
{
    match template {
        Ok(t) => {
            let stamp = time.timestamp_token();
            let mut path = String::from_str("100-permanent");
            path.append("/");
            path.append(stamp.as_str());
            path.append(" - ");
            path.append(title);
            path.append(".md");
            let content = fill_template(t.as_str(), stamp.as_str(), title);
            Ok(NoteFile { path, content })
        },
        Err(e) => Err(e),
    }
}

pub open spec fn readme_path(dir: Seq<char>) -> Seq<char> {
    dir + "/README.md"@
}

pub open spec fn directory_template(dir: Seq<char>) -> Seq<char> {
    "directories/"@ + dir + ".md"@
}

/// Where a folder's README lies.
pub fn directory_readme_path(dir: &str) -> (r: String)
    ensures
        r@ == readme_path(dir@),
{
    let mut path = String::from_str(dir);
    path.append("/README.md");
    path
}

/// What to do about a folder's `README.md`.
pub enum ReadmeStep {
    /// A README is already there and stays as it is.
    Keep,
    /// Write the named template's text to `path`.
    Write { path: String, template: String },
}

/// Decides how a folder gets its README: one that exists is never
/// overwritten; otherwise it is written from `directories/<dir>.md`.
pub fn create_directory_readme(dir: &str, readme_exists: bool) -> (r: ReadmeStep)
    ensures
        readme_exists ==> r is Keep,
        !readme_exists ==> r is Write && r->path@ == readme_path(dir@)
            && r->template@ == directory_template(dir@),
{
    if readme_exists {
        ReadmeStep::Keep
    } else {
        let path = directory_readme_path(dir);
        let mut template = String::from_str("directories/");
        template.append(dir);
        template.append(".md");
        ReadmeStep::Write { path, template }
    }
}

/// How setting up one folder went.
pub enum DirOutcome {
    /// The folder exists and its README is in place.
    Ready,
    /// The folder exists but its README could not be made.
    ReadmeFailed { reason: String },
    /// The folder could not be created.
    CreateFailed { reason: String },
}

pub struct DirReport {
    pub dir: String,
    pub outcome: DirOutcome,
}

/// The warning that a folder's outcome calls for, if any.
pub open spec fn warning_of(r: DirReport) -> Option<Seq<char>> {
    match r.outcome {
        DirOutcome::Ready => None,
        DirOutcome::ReadmeFailed { reason } => Some(
            "Warning: could not create README in "@ + r.dir@ + ": "@ + reason@,
        ),
        DirOutcome::CreateFailed { reason } => Some("Error creating "@ + r.dir@ + ": "@ + reason@),
    }
}

/// The warnings of all folders, in the order the folders were set up.
pub open spec fn warnings_of(reports: Seq<DirReport>) -> Seq<Seq<char>>
    decreases reports.len(),
{
    if reports.len() == 0 {
        Seq::empty()
    } else {
        warnings_of(reports.drop_last()) + opt_seq(warning_of(reports.last()))
    }
}

fn warning_text(r: &DirReport) -> (w: Option<String>)
    ensures
        match w {
            Some(s) => warning_of(*r) == Some(s@),
            None => warning_of(*r) == None::<Seq<char>>,
        },
{
    match &r.outcome {
        DirOutcome::Ready => None,
        DirOutcome::ReadmeFailed { reason } => {
            let mut s = String::from_str("Warning: could not create README in ");
            s.append(r.dir.as_str());
            s.append(": ");
            s.append(reason.as_str());
            Some(s)
        },
        DirOutcome::CreateFailed { reason } => {
            let mut s = String::from_str("Error creating ");
            s.append(r.dir.as_str());
            s.append(": ");
            s.append(reason.as_str());
            Some(s)
        },
    }
}

/// What comes next for a folder once its creation was attempted.
pub enum InitStep {
    /// The folder is there: set up its README.
    SetUpReadme,
    /// The folder could not be made: record this and leave its README alone.
    Record(DirOutcome),
}

/// Decides the next step for a folder from the result of creating it: the
/// README is attempted only in a folder that exists.
pub fn after_create(created: Result<(), String>) -> (r: InitStep)
    ensures
        created is Ok ==> r is SetUpReadme,
        created is Err ==> r == (InitStep::Record(DirOutcome::CreateFailed { reason: created->Err_0 })),
{
    match created {
        Ok(()) => InitStep::SetUpReadme,
        Err(reason) => InitStep::Record(DirOutcome::CreateFailed { reason }),
    }
}

/// How a folder ends up once its README step ran: kept or written means
/// ready, a failure is recorded with its reason.
pub fn after_readme(readme: Result<(), String>) -> (r: DirOutcome)
    ensures
        readme is Ok ==> r is Ready,
        readme is Err ==> r == (DirOutcome::ReadmeFailed { reason: readme->Err_0 }),
{
    match readme {
        Ok(()) => DirOutcome::Ready,
        Err(reason) => DirOutcome::ReadmeFailed { reason },
    }
}

/// The number of folders whose set-up did not fully succeed.
pub open spec fn failed_count(reports: Seq<DirReport>) -> nat
    decreases reports.len(),
{
    if reports.len() == 0 {
        0
    } else {
        failed_count(reports.drop_last()) + if reports.last().outcome is Ready { 0nat } else { 1nat }
    }
}

/// A set-up run yields one warning per folder that failed, and the warning
/// of the `k`-th failed folder names that folder; folders that succeeded
/// add none, so one failure never hides another.
pub proof fn lemma_one_warning_per_failure(reports: Seq<DirReport>)
    ensures
        warnings_of(reports).len() == failed_count(reports),
        forall|i: int| 0 <= i < reports.len() && !(reports[i].outcome is Ready) ==>
            #[trigger] warnings_of(reports)[failed_count(reports.subrange(0, i)) as int]
                == warning_of(reports[i])->Some_0,
    decreases reports.len(),
{
    if reports.len() > 0 {
        let init = reports.drop_last();
        lemma_one_warning_per_failure(init);
        assert forall|i: int| 0 <= i < reports.len() && !(reports[i].outcome is Ready) implies
            #[trigger] warnings_of(reports)[failed_count(reports.subrange(0, i)) as int]
                == warning_of(reports[i])->Some_0 by {
            if i < init.len() {
                assert(reports.subrange(0, i) =~= init.subrange(0, i));
                assert(init[i] == reports[i]);
                lemma_failed_count_prefix(init, i);
            } else {
                assert(reports.subrange(0, i) =~= init);
            }
        }
    }
}

proof fn lemma_failed_count_prefix(s: Seq<DirReport>, i: int)
    requires
        0 <= i < s.len(),
        !(s[i].outcome is Ready),
    ensures
        failed_count(s.subrange(0, i)) < failed_count(s),
    decreases s.len(),
{
    if i < s.len() - 1 {
        assert(s.drop_last().subrange(0, i) =~= s.subrange(0, i));
        lemma_failed_count_prefix(s.drop_last(), i);
    } else {
        assert(s.subrange(0, i) =~= s.drop_last());
    }
}

/// Collects the warnings of a set-up run; an empty result means every
/// folder is ready. A failure in one folder does not hide the others.
pub fn initialize_zettelkasten_structure(reports: &Vec<DirReport>) -> (r: Vec<String>)
    ensures
        r@.map_values(|w: String| w@) == warnings_of(reports@),
{
    let mut r: Vec<String> = Vec::new();
    let mut i: usize = 0;
    assert(reports@.subrange(0, 0) =~= Seq::<DirReport>::empty());
    while i < reports.len()
        invariant
            i <= reports@.len(),
            r@.map_values(|w: String| w@) == warnings_of(reports@.subrange(0, i as int)),
        decreases reports.len() - i,
    {
        let ghost prev = r@;
        assert(reports@.subrange(0, i + 1).drop_last() =~= reports@.subrange(0, i as int));
        match warning_text(&reports[i]) {
            Some(w) => {
                r.push(w);
                assert(r@.map_values(|w: String| w@) =~= prev.map_values(|w: String| w@) + seq![w@]);
            },
            None => {},
        }
        i = i + 1;
    }
    assert(reports@.subrange(0, i as int) =~= reports@);
    r
}

} // verus!
