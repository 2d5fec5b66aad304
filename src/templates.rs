use vstd::prelude::*;
use vstd::string::StringExecFns;
use crate::text::{join_path, joined};

verus! {

/// Where a templates directory may come from, in order of precedence.
pub struct TemplateSources {
    /// The directory named by the override variable, if it was set.
    pub env_dir: Option<String>,
    /// The user's home directory, if known.
    pub home: Option<String>,
    /// The directory that holds the running executable, if known.
    pub exe_dir: Option<String>,
}

/// One place to look for templates, and whether it exists.
pub struct Candidate {
    pub path: String,
    pub exists: bool,
}

/// Why a template could not be had.
pub enum TemplateError {
    /// No candidate directory exists; all of them are listed, in search order.
    NotFound { attempted: Vec<String> },
    /// The directory was found but the named file could not be read.
    Read { name: String, path: String, reason: String },
}

pub open spec fn opt_view(o: Option<String>) -> Option<Seq<char>> {
    match o {
        Some(s) => Some(s@),
        None => None,
    }
}

pub open spec fn config_dir_of(home: Seq<char>) -> Seq<char> {
    joined(home, ".config/zettel/templates"@)
}

pub open spec fn install_dir_of(exe_dir: Seq<char>) -> Seq<char> {
    joined(exe_dir, "../share/zettel/templates"@)
}

pub open spec fn dev_dir() -> Seq<char> {
    "templates"@
}

pub open spec fn opt_seq(o: Option<Seq<char>>) -> Seq<Seq<char>> {
    match o {
        Some(s) => seq![s],
        None => Seq::empty(),
    }
}

pub open spec fn opt_apply(o: Option<Seq<char>>, f: spec_fn(Seq<char>) -> Seq<char>) -> Option<Seq<char>> {
    match o {
        Some(s) => Some(f(s)),
        None => None,
    }
}

/// The directories to search, in order: the override, the one under the
/// home directory, the one beside the installation, the development one.
pub open spec fn candidate_paths(
    env_dir: Option<Seq<char>>,
    home: Option<Seq<char>>,
    exe_dir: Option<Seq<char>>,
) -> Seq<Seq<char>> {
    opt_seq(env_dir) + opt_seq(opt_apply(home, |h: Seq<char>| config_dir_of(h)))
        + opt_seq(opt_apply(exe_dir, |e: Seq<char>| install_dir_of(e))) + seq![dev_dir()]
}

impl TemplateSources {
    pub open spec fn paths(&self) -> Seq<Seq<char>> {
        candidate_paths(opt_view(self.env_dir), opt_view(self.home), opt_view(self.exe_dir))
    }

    /// The directories to search for templates, in order of precedence.
    pub fn candidate_dirs(&self) -> (r: Vec<String>)
        ensures
            r@.map_values(|p: String| p@) == self.paths(),
    {
        let mut r: Vec<String> = Vec::new();
        match &self.env_dir {
            Some(d) => r.push(d.clone()),
            None => {},
        }
        match &self.home {
            Some(h) => r.push(join_path(h.as_str(), ".config/zettel/templates")),
            None => {},
        }
        match &self.exe_dir {
            Some(e) => r.push(join_path(e.as_str(), "../share/zettel/templates")),
            None => {},
        }
        r.push(String::from_str("templates"));
        assert(r@.map_values(|p: String| p@) =~= self.paths());
        r
    }
}

pub open spec fn candidate_view(c: Candidate) -> (Seq<char>, bool) {
    (c.path@, c.exists)
}

/// The first existing directory of the list, if any.
pub open spec fn first_existing(cands: Seq<(Seq<char>, bool)>) -> Option<Seq<char>>
    decreases cands.len(),
{
    if cands.len() == 0 {
        None
    } else if cands[0].1 {
        Some(cands[0].0)
    } else {
        first_existing(cands.subrange(1, cands.len() as int))
    }
}

/// Picks the templates directory: the first candidate that exists.
///
/// When none exists the error lists every candidate, in order.
pub fn find_templates_dir(candidates: &Vec<Candidate>) -> (r: Result<String, TemplateError>)
    ensures
        match r {
            Ok(dir) => first_existing(candidates@.map_values(|c: Candidate| candidate_view(c)))
                == Some(dir@),
            Err(TemplateError::NotFound { attempted }) =>
                first_existing(candidates@.map_values(|c: Candidate| candidate_view(c))) == None::<Seq<char>>
                && attempted@.map_values(|p: String| p@)
                    == candidates@.map_values(|c: Candidate| c.path@),
            Err(_) => false,
        },
{
    let ghost all = candidates@.map_values(|c: Candidate| candidate_view(c));
    let mut attempted: Vec<String> = Vec::new();
    let mut i: usize = 0;
    assert(all.subrange(0, all.len() as int) =~= all);
    while i < candidates.len()
        invariant
            i <= candidates@.len(),
            attempted@.len() == i,
            all == candidates@.map_values(|c: Candidate| candidate_view(c)),
            first_existing(all) == first_existing(all.subrange(i as int, all.len() as int)),
            attempted@.map_values(|p: String| p@)
                == candidates@.subrange(0, i as int).map_values(|c: Candidate| c.path@),
        decreases candidates.len() - i,
    {
        let c = &candidates[i];
        if c.exists {
            assert(all.subrange(i as int, all.len() as int)[0] == candidate_view(*c));
            return Ok(c.path.clone());
        }
        let ghost prev = attempted@;
        let p = c.path.clone();
        attempted.push(p);
        assert(all.subrange(i as int, all.len() as int).subrange(1, all.len() - i)
            =~= all.subrange(i + 1, all.len() as int));
        assert forall|j: int| 0 <= j <= i implies #[trigger] attempted@[j]@ == candidates@[j].path@ by {
            if j < i {
                assert(prev.map_values(|p: String| p@)[j]
                    == candidates@.subrange(0, i as int).map_values(|c: Candidate| c.path@)[j]);
            } else {
                assert(attempted@[j] == candidates@[j].path);
            }
        }
        assert(attempted@.map_values(|p: String| p@)
            =~= candidates@.subrange(0, i + 1).map_values(|c: Candidate| c.path@));
        i = i + 1;
    }
    assert(candidates@.subrange(0, i as int) =~= candidates@);
    Err(TemplateError::NotFound { attempted })
}

/// The variable whose value, when set, overrides the templates directory.
pub fn templates_env_var() -> (r: &'static str)
    ensures
        r@ == "ZETTEL_TEMPLATES_DIR"@,
{
    "ZETTEL_TEMPLATES_DIR"
}

/// Where the template `name` lies inside the templates directory `dir`.
pub fn template_path(dir: &str, name: &str) -> (r: String)
    ensures
        r@ == joined(dir@, name@),
{
    join_path(dir, name)
}

pub open spec fn not_found_text() -> Seq<char> {
    "templates directory not found.\nTry one of:\n  1. run from the project directory\n  2. set the ZETTEL_TEMPLATES_DIR environment variable\n  3. copy the templates into ~/.config/zettel/templates"@
}

impl TemplateError {
    /// What the user is told: for a missing directory, every way to provide
    /// one; for an unreadable template, the template, the cause and the path.
    pub fn message(&self) -> (r: String)
        ensures
            self is NotFound ==> r@ == not_found_text(),
            self is Read ==> r@ == "could not load template '"@ + self->name@ + "': "@
                + self->reason@ + "\nPath searched: "@ + self->path@,
    {
        match self {
            TemplateError::NotFound { .. } => String::from_str(
                "templates directory not found.\nTry one of:\n  1. run from the project directory\n  2. set the ZETTEL_TEMPLATES_DIR environment variable\n  3. copy the templates into ~/.config/zettel/templates",
            ),
            TemplateError::Read { name, path, reason } => {
                let mut r = String::from_str("could not load template '");
                r.append(name.as_str());
                r.append("': ");
                r.append(reason.as_str());
                r.append("\nPath searched: ");
                r.append(path.as_str());
                r
            },
        }
    }
}

/// Each path paired with whether `is_dir` holds of it.
pub open spec fn probed(paths: Seq<Seq<char>>, is_dir: spec_fn(Seq<char>) -> bool) -> Seq<(Seq<char>, bool)> {
    paths.map_values(|p: Seq<char>| (p, is_dir(p)))
}

/// An existing override directory is chosen, whichever of the other
/// candidates exist too.
pub proof fn lemma_override_takes_precedence(
    env_dir: Seq<char>,
    home: Option<Seq<char>>,
    exe_dir: Option<Seq<char>>,
    is_dir: spec_fn(Seq<char>) -> bool,
)
    requires
        is_dir(env_dir),
    ensures
        first_existing(probed(candidate_paths(Some(env_dir), home, exe_dir), is_dir)) == Some(env_dir),
{
    let paths = candidate_paths(Some(env_dir), home, exe_dir);
    assert(paths[0] == env_dir);
    assert(probed(paths, is_dir)[0] == (env_dir, true));
}

/// An existing override directory is found even when no other candidate
/// exists.
pub proof fn lemma_override_alone_found(
    env_dir: Seq<char>,
    home: Option<Seq<char>>,
    exe_dir: Option<Seq<char>>,
    is_dir: spec_fn(Seq<char>) -> bool,
)
    requires
        is_dir(env_dir),
        forall|i: int| 1 <= i < candidate_paths(Some(env_dir), home, exe_dir).len()
            ==> !is_dir(#[trigger] candidate_paths(Some(env_dir), home, exe_dir)[i]),
    ensures
        first_existing(probed(candidate_paths(Some(env_dir), home, exe_dir), is_dir)) == Some(env_dir),
{
    lemma_override_takes_precedence(env_dir, home, exe_dir, is_dir);
}

/// Without an override, an existing directory under the home directory is
/// chosen ahead of the installed and development ones.
pub proof fn lemma_config_before_fallbacks(
    home: Seq<char>,
    exe_dir: Option<Seq<char>>,
    is_dir: spec_fn(Seq<char>) -> bool,
)
    requires
        is_dir(config_dir_of(home)),
    ensures
        first_existing(probed(candidate_paths(None, Some(home), exe_dir), is_dir))
            == Some(config_dir_of(home)),
{
    let paths = candidate_paths(None, Some(home), exe_dir);
    assert(paths[0] == config_dir_of(home));
    assert(probed(paths, is_dir)[0] == (config_dir_of(home), true));
}

} // verus!
