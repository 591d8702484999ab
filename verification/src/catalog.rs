//! Installed applications: which desktop entries exist, where their files are,
//! and which actions they offer.

use vstd::prelude::*;

use crate::store::ids_view;
use crate::text::{
    ends_with, has_char, has_control, has_double_dot, is_blank, split_on, split_text,
    text_equals, text_is_blank,
};

verus! {

/// Answers whether a desktop entry is installed.
///
/// The answer depends on the system the service runs on, so the service logic
/// makes no assumption about it: each of its contracts holds whatever is answered.
pub trait AppCatalog {
    fn is_installed(&self, desktop_id: &str) -> bool;
}

/// `a` joined with the relative path `b`, as `Path::join` does: a separator is
/// added unless `a` is empty or already ends in one.
pub open spec fn path_join(a: Seq<char>, b: Seq<char>) -> Seq<char> {
    if a.len() == 0 {
        b
    } else if a.last() == '/' {
        a + b
    } else {
        a + "/"@ + b
    }
}

/// Joins `a` with the relative path `b`.
pub fn join_path(a: &str, b: &str) -> (p: String)
    ensures
        p@ == path_join(a@, b@),
{
    let cs = crate::text::chars_of(a);
    if cs.len() == 0 {
        return String::from_str(b);
    }
    let mut p = String::from_str(a);
    if cs[cs.len() - 1] != '/' {
        p.append("/");
    }
    p.append(b);
    p
}

/// An identifier that the catalog looks up: it ends in `.desktop` and cannot leave the
/// applications directory (no `/`, no `..`, no control character).
pub open spec fn lookup_id_ok(desktop_id: Seq<char>) -> bool {
    &&& ends_with(desktop_id, ".desktop"@)
    &&& !has_char(desktop_id, '/')
    &&& !has_double_dot(desktop_id)
    &&& !has_control(desktop_id)
}

/// The files that may hold the entry `desktop_id`, in search order.
pub open spec fn entry_candidates(directories: Seq<Seq<char>>, desktop_id: Seq<char>) -> Seq<Seq<char>> {
    directories.map_values(|d: Seq<char>| path_join(d, desktop_id))
}

/// The applications directories searched when none are configured: the user's data
/// directory (`XDG_DATA_HOME`, else `HOME/.local/share`) followed by each non-empty
/// entry of `XDG_DATA_DIRS` (`/usr/local/share:/usr/share` when unset), each with
/// `applications` appended.
pub open spec fn environment_directories(
    data_home: Option<Seq<char>>,
    home: Option<Seq<char>>,
    data_dirs: Option<Seq<char>>,
) -> Seq<Seq<char>> {
    let user = match data_home {
        Some(d) => Some(d),
        None => match home {
            Some(h) => Some(path_join(h, ".local/share"@)),
            None => None,
        },
    };
    let first = match user {
        Some(d) => seq![path_join(d, "applications"@)],
        None => Seq::empty(),
    };
    let dirs = match data_dirs {
        Some(d) => d,
        None => "/usr/local/share:/usr/share"@,
    };
    first + data_dir_entries(split_on(dirs, ':'))
}

/// `applications` under each non-empty entry of `entries`, in order.
pub open spec fn data_dir_entries(entries: Seq<Seq<char>>) -> Seq<Seq<char>>
    decreases entries.len(),
{
    if entries.len() == 0 {
        Seq::empty()
    } else if entries.last().len() == 0 {
        data_dir_entries(entries.drop_last())
    } else {
        data_dir_entries(entries.drop_last()).push(path_join(entries.last(), "applications"@))
    }
}

/// Reports whether a regular file exists at `path`.
///
/// Calls `std::path::Path::is_file`. What is on disk is outside this library, so
/// nothing is stated of the answer.
#[verifier::external_body]
fn is_file(path: &str) -> bool {
    std::path::Path::new(path).is_file()
}

/// Installed applications found by searching applications directories for entry files.
#[derive(Debug, Clone)]
pub struct SystemAppCatalog {
    application_directories: Vec<String>,
}

impl SystemAppCatalog {
    /// The directories searched, in order.
    pub closed spec fn directories(&self) -> Seq<Seq<char>> {
        ids_view(self.application_directories@)
    }

    /// The directories searched, in order.
    pub fn application_directories(&self) -> (d: &Vec<String>)
        ensures
            ids_view(d@) == self.directories(),
    {
        &self.application_directories
    }

    /// A catalog searching `application_directories` in order.
    pub fn from_application_directories(application_directories: Vec<String>) -> (c: Self)
        ensures
            c.directories() == ids_view(application_directories@),
    {
        SystemAppCatalog { application_directories }
    }

    /// The catalog of the standard XDG applications directories, from the values of
    /// `XDG_DATA_HOME`, `HOME` and `XDG_DATA_DIRS` (each `None` when unset).
    pub fn from_environment(data_home: Option<String>, home: Option<String>, data_dirs: Option<
        String,
    >) -> (c: Self)
        ensures
            c.directories() == environment_directories(
                match data_home {
                    Some(d) => Some(d@),
                    None => None,
                },
                match home {
                    Some(h) => Some(h@),
                    None => None,
                },
                match data_dirs {
                    Some(d) => Some(d@),
                    None => None,
                },
            ),
    {
        let mut directories: Vec<String> = Vec::new();
        let user = match data_home {
            Some(d) => Some(d),
            None => match home {
                Some(h) => Some(join_path(h.as_str(), ".local/share")),
                None => None,
            },
        };
        match user {
            Some(d) => directories.push(join_path(d.as_str(), "applications")),
            None => {},
        }
        let dirs = match data_dirs {
            Some(d) => d,
            None => String::from_str("/usr/local/share:/usr/share"),
        };
        let entries = split_text(dirs.as_str(), ':');
        let ghost first = ids_view(directories@);
        let ghost entry_view = entries@.map_values(|p: String| p@);
        let mut i: usize = 0;
        assert(entry_view.take(0) =~= Seq::<Seq<char>>::empty());
        assert(ids_view(directories@) =~= first + data_dir_entries(entry_view.take(0)));
        while i < entries.len()
            invariant
                entry_view == entries@.map_values(|p: String| p@),
                i <= entries.len(),
                ids_view(directories@) == first + data_dir_entries(entry_view.take(i as int)),
            decreases entries.len() - i,
        {
            let ghost before = directories@;
            assert(entry_view.take(i + 1).drop_last() =~= entry_view.take(i as int));
            assert(entry_view.take(i + 1).last() == entries@[i as int]@);
            let entry = entries[i].as_str();
            if crate::text::chars_of(entry).len() != 0 {
                directories.push(join_path(entry, "applications"));
                assert(ids_view(directories@) =~= ids_view(before).push(
                    path_join(entry@, "applications"@),
                ));
            }
            i = i + 1;
        }
        assert(entry_view.take(entries.len() as int) =~= entry_view);
        SystemAppCatalog { application_directories: directories }
    }

    /// The file of the installed entry `desktop_id`: the first candidate, in search
    /// order, that is a regular file. An identifier that could leave the applications
    /// directories is never looked up.
    ///
    /// Whether a candidate is a regular file is asked of the file system, in order, until
    /// one is; the answers decide the result as [`first_existing`] says.
    pub fn desktop_file(&self, desktop_id: &str) -> (p: Option<String>)
        ensures
            !lookup_id_ok(desktop_id@) ==> p is None,
            lookup_id_ok(desktop_id@) ==> exists|answers: Seq<bool>|
                answers.len() <= self.directories().len() && #[trigger] first_existing(
                    entry_candidates(self.directories(), desktop_id@),
                    answers,
                ) == path_view(p),
            match p {
                Some(path) => exists|k: int|
                    0 <= k < self.directories().len() && #[trigger] entry_candidates(
                        self.directories(),
                        desktop_id@,
                    )[k] == path@ && file_reported(path@, true) && forall|j: int|
                        0 <= j < k ==> file_reported(
                            #[trigger] entry_candidates(self.directories(), desktop_id@)[j],
                            false,
                        ),
                None => lookup_id_ok(desktop_id@) ==> forall|j: int|
                    0 <= j < self.directories().len() ==> file_reported(
                        #[trigger] entry_candidates(self.directories(), desktop_id@)[j],
                        false,
                    ),
            },
    {
        if !lookup_id_is_safe(desktop_id) {
            return None;
        }
        let ghost all = entry_candidates(self.directories(), desktop_id@);
        let mut candidates: Vec<String> = Vec::new();
        let mut answers: Vec<bool> = Vec::new();
        let mut i: usize = 0;
        while i < self.application_directories.len()
            invariant_except_break
                forall|j: int| 0 <= j < i ==> !answers@[j],
            invariant
                all == entry_candidates(self.directories(), desktop_id@),
                all.len() == self.application_directories.len(),
                i <= self.application_directories.len(),
                candidates@.len() == i,
                answers@.len() == i,
                ids_view(candidates@) == all.take(i as int),
                forall|j: int| 0 <= j < i ==> file_reported(#[trigger] all[j], answers@[j]),
            ensures
                (i == all.len() && forall|j: int| 0 <= j < i ==> !answers@[j]) || (0 < i
                    && answers@[i - 1] && forall|j: int| 0 <= j < i - 1 ==> !answers@[j]),
            decreases self.application_directories.len() - i,
        {
            let path = join_path(self.application_directories[i].as_str(), desktop_id);
            assert(all[i as int] == path@);
            let found = ask_file(path.as_str());
            candidates.push(path);
            answers.push(found);
            assert(ids_view(candidates@) =~= all.take(i + 1));
            i = i + 1;
            if found {
                break;
            }
        }
        proof {
            lemma_first_existing_prefix(all, answers@, i as int);
            if i > 0 && answers@[i - 1] {
                lemma_first_existing_last(all.take(i as int), answers@);
                assert(all.take(i as int)[i - 1] == all[i - 1]);
            } else {
                lemma_first_existing_none(all.take(i as int), answers@);
            }
        }
        first_existing_candidate(&candidates, &answers)
    }
}

/// Asked whether `path` is a regular file, the file system answered `answer`: a call of
/// [`is_file`] on `path` gave it.
pub closed spec fn file_reported(path: Seq<char>, answer: bool) -> bool {
    exists|s: &str| s@ == path && call_ensures(is_file, (s,), answer)
}

/// Asks the file system whether `path` is a regular file.
fn ask_file(path: &str) -> (b: bool)
    ensures
        file_reported(path@, b),
{
    let probe = is_file;
    probe(path)
}

/// Answers that are all "no" find nothing.
proof fn lemma_first_existing_none(candidates: Seq<Seq<char>>, answers: Seq<bool>)
    requires
        forall|j: int| 0 <= j < answers.len() ==> !answers[j],
    ensures
        first_existing(candidates, answers) is None,
    decreases answers.len(),
{
    if answers.len() > 0 && candidates.len() > 0 {
        lemma_first_existing_none(candidates.drop_first(), answers.drop_first());
    }
}

/// Answers that are "no" up to a last "yes" find the candidate of that last answer.
proof fn lemma_first_existing_last(candidates: Seq<Seq<char>>, answers: Seq<bool>)
    requires
        0 < answers.len() <= candidates.len(),
        answers[answers.len() - 1],
        forall|j: int| 0 <= j < answers.len() - 1 ==> !answers[j],
    ensures
        first_existing(candidates, answers) == Some(candidates[answers.len() - 1]),
    decreases answers.len(),
{
    if answers.len() > 1 {
        lemma_first_existing_last(candidates.drop_first(), answers.drop_first());
    }
}

/// Mathematical value of a found path.
pub open spec fn path_view(p: Option<String>) -> Option<Seq<char>> {
    match p {
        Some(path) => Some(path@),
        None => None,
    }
}

/// The first of `candidates` answered as existing, where `answers[i]` is the answer for
/// `candidates[i]`; nothing when none was.
pub open spec fn first_existing(candidates: Seq<Seq<char>>, answers: Seq<bool>) -> Option<Seq<char>>
    decreases answers.len(),
{
    if answers.len() == 0 || candidates.len() == 0 {
        None
    } else if answers[0] {
        Some(candidates[0])
    } else {
        first_existing(candidates.drop_first(), answers.drop_first())
    }
}

/// `path` is the file of the entry `desktop_id` among `directories` for some answers of
/// the file system: the first candidate answered as existing.
pub open spec fn entry_file(directories: Seq<Seq<char>>, desktop_id: Seq<char>, path: Seq<char>) -> bool {
    exists|answers: Seq<bool>|
        #[trigger] first_existing(entry_candidates(directories, desktop_id), answers) == Some(path)
}

/// Only the candidates that have an answer matter.
proof fn lemma_first_existing_prefix(candidates: Seq<Seq<char>>, answers: Seq<bool>, n: int)
    requires
        answers.len() <= n <= candidates.len(),
    ensures
        first_existing(candidates, answers) == first_existing(candidates.take(n), answers),
    decreases answers.len(),
{
    if answers.len() > 0 {
        assert(candidates.take(n).drop_first() =~= candidates.drop_first().take(n - 1));
        lemma_first_existing_prefix(candidates.drop_first(), answers.drop_first(), n - 1);
    }
}

/// A found entry file is one of its candidates.
pub proof fn lemma_first_existing_is_candidate(candidates: Seq<Seq<char>>, answers: Seq<bool>)
    ensures
        first_existing(candidates, answers) matches Some(path) ==> candidates.contains(path),
    decreases answers.len(),
{
    if answers.len() > 0 && candidates.len() > 0 && !answers[0] {
        lemma_first_existing_is_candidate(candidates.drop_first(), answers.drop_first());
        match first_existing(candidates, answers) {
            Some(path) => {
                let k = choose|k: int|
                    0 <= k < candidates.drop_first().len() && candidates.drop_first()[k] == path;
                assert(candidates[k + 1] == path);
            },
            None => {},
        }
    } else if answers.len() > 0 && candidates.len() > 0 {
        assert(candidates[0] == candidates[0]);
    }
}

/// The first of `candidates` answered as existing: `answers[i]` is the answer for
/// `candidates[i]`.
pub fn first_existing_candidate(candidates: &Vec<String>, answers: &Vec<bool>) -> (p: Option<
    String,
>)
    ensures
        path_view(p) == first_existing(ids_view(candidates@), answers@),
{
    let ghost c = ids_view(candidates@);
    let mut j: usize = 0;
    assert(c.skip(0) =~= c);
    assert(answers@.skip(0) =~= answers@);
    while j < answers.len() && j < candidates.len()
        invariant
            c == ids_view(candidates@),
            j <= answers.len(),
            j <= candidates.len(),
            first_existing(c, answers@) == first_existing(c.skip(j as int), answers@.skip(j as int)),
        decreases answers.len() - j,
    {
        assert(c.skip(j as int)[0] == candidates@[j as int]@);
        assert(c.skip(j as int).drop_first() =~= c.skip(j + 1));
        assert(answers@.skip(j as int).drop_first() =~= answers@.skip(j + 1));
        if answers[j] {
            return Some(candidates[j].clone());
        }
        j = j + 1;
    }
    None
}

impl AppCatalog for SystemAppCatalog {
    /// An entry is installed exactly when [`SystemAppCatalog::desktop_file`] finds its
    /// file: for the answers the file system gave about its candidates, in order, some
    /// candidate was a regular file. An identifier that could leave the applications
    /// directories is never installed.
    fn is_installed(&self, desktop_id: &str) -> (installed: bool)
        ensures
            !lookup_id_ok(desktop_id@) ==> !installed,
            lookup_id_ok(desktop_id@) ==> exists|answers: Seq<bool>|
                answers.len() <= self.directories().len() && installed == (#[trigger] first_existing(
                    entry_candidates(self.directories(), desktop_id@),
                    answers,
                ) is Some),
            installed ==> self.directories().len() > 0,
            installed ==> exists|k: int|
                0 <= k < self.directories().len() && file_reported(
                    #[trigger] entry_candidates(self.directories(), desktop_id@)[k],
                    true,
                ) && forall|j: int|
                    0 <= j < k ==> file_reported(
                        #[trigger] entry_candidates(self.directories(), desktop_id@)[j],
                        false,
                    ),
            lookup_id_ok(desktop_id@) && !installed ==> forall|j: int|
                0 <= j < self.directories().len() ==> file_reported(
                    #[trigger] entry_candidates(self.directories(), desktop_id@)[j],
                    false,
                ),
    {
        match self.desktop_file(desktop_id) {
            Some(path) => {
                proof {
                    let c = entry_candidates(self.directories(), desktop_id@);
                    let answers = choose|answers: Seq<bool>|
                        answers.len() <= self.directories().len() && #[trigger] first_existing(
                            c,
                            answers,
                        ) == path_view(Some(path));
                    lemma_first_existing_is_candidate(c, answers);
                    assert(c.contains(path@));
                }
                true
            },
            None => false,
        }
    }
}

/// Decides [`lookup_id_ok`].
fn lookup_id_is_safe(desktop_id: &str) -> (b: bool)
    ensures
        b == lookup_id_ok(desktop_id@),
{
    let cs = crate::text::chars_of(desktop_id);
    let suffix = crate::text::chars_of(".desktop");
    if cs.len() < suffix.len() {
        return false;
    }
    let start = cs.len() - suffix.len();
    let mut k: usize = 0;
    while k < suffix.len()
        invariant
            cs@ == desktop_id@,
            suffix@ == ".desktop"@,
            start == cs.len() - suffix.len(),
            k <= suffix.len(),
            forall|j: int| 0 <= j < k ==> cs@[start + j] == suffix@[j],
        decreases suffix.len() - k,
    {
        if cs[start + k] != suffix[k] {
            assert(desktop_id@.subrange(start as int, desktop_id@.len() as int)[k as int]
                != suffix@[k as int]);
            return false;
        }
        k = k + 1;
    }
    assert(desktop_id@.subrange(start as int, desktop_id@.len() as int) =~= ".desktop"@);
    let mut i: usize = 0;
    while i < cs.len()
        invariant
            cs@ == desktop_id@,
            i <= cs.len(),
            forall|j: int| 0 <= j < i ==> cs@[j] != '/',
            forall|j: int| 0 <= j < i ==> !crate::text::is_control(#[trigger] cs@[j]),
            forall|j: int|
                0 <= j < i && j + 1 < cs.len() ==> !(#[trigger] cs@[j] == '.' && cs@[j + 1]
                    == '.'),
        decreases cs.len() - i,
    {
        let c = cs[i];
        if c == '/' || crate::text::char_is_control(c) || (c == '.' && i + 1 < cs.len() && cs[i
            + 1] == '.') {
            return false;
        }
        i = i + 1;
    }
    true
}

/// An action a desktop entry offers: its identifier and its label.
#[derive(Debug, Clone, PartialEq, Eq)]
pub struct DesktopAction {
    pub id: String,
    pub name: String,
}

/// An action as a desktop entry lists it: its identifier and, when it has one, its label.
#[derive(Debug, Clone, PartialEq, Eq)]
pub struct ListedAction {
    pub id: String,
    pub label: Option<String>,
}

/// The actions shown to users among `listed`: those with a label, a non-empty
/// identifier and a label that is not blank, in listing order.
pub open spec fn usable_actions(listed: Seq<(Seq<char>, Option<Seq<char>>)>) -> Seq<(Seq<char>, Seq<char>)>
    decreases listed.len(),
{
    if listed.len() == 0 {
        Seq::empty()
    } else {
        let rest = usable_actions(listed.drop_last());
        let (id, label) = listed.last();
        match label {
            Some(name) => if id.len() > 0 && !is_blank(name) {
                rest.push((id, name))
            } else {
                rest
            },
            None => rest,
        }
    }
}

/// Mathematical value of listed actions.
pub open spec fn listed_view(listed: Seq<ListedAction>) -> Seq<(Seq<char>, Option<Seq<char>>)> {
    listed.map_values(
        |a: ListedAction|
            (
                a.id@,
                match a.label {
                    Some(l) => Some(l@),
                    None => None,
                },
            ),
    )
}

/// Mathematical value of desktop actions.
pub open spec fn actions_view(actions: Seq<DesktopAction>) -> Seq<(Seq<char>, Seq<char>)> {
    actions.map_values(|a: DesktopAction| (a.id@, a.name@))
}

/// The actions offered to users among those an entry lists.
pub fn offered_actions(listed: Vec<ListedAction>) -> (actions: Vec<DesktopAction>)
    ensures
        actions_view(actions@) == usable_actions(listed_view(listed@)),
{
    let ghost view = listed_view(listed@);
    let mut actions: Vec<DesktopAction> = Vec::new();
    let mut i: usize = 0;
    assert(view.take(0) =~= Seq::<(Seq<char>, Option<Seq<char>>)>::empty());
    assert(actions_view(actions@) =~= Seq::<(Seq<char>, Seq<char>)>::empty());
    while i < listed.len()
        invariant
            view == listed_view(listed@),
            i <= listed.len(),
            actions_view(actions@) == usable_actions(view.take(i as int)),
        decreases listed.len() - i,
    {
        let ghost before = actions@;
        assert(view.take(i + 1).drop_last() =~= view.take(i as int));
        let item = &listed[i];
        assert(view.take(i + 1).last() == view[i as int]);
        match &item.label {
            Some(name) => {
                if crate::text::chars_of(item.id.as_str()).len() > 0 && !text_is_blank(
                    name.as_str(),
                ) {
                    actions.push(DesktopAction { id: item.id.clone(), name: name.clone() });
                    assert(actions_view(actions@) =~= actions_view(before).push(
                        (item.id@, name@),
                    ));
                }
            },
            None => {},
        }
        i = i + 1;
    }
    assert(view.take(listed.len() as int) =~= view);
    actions
}

/// Decides whether one of `actions` has the identifier `action_id`.
pub fn offers_action(actions: &Vec<DesktopAction>, action_id: &str) -> (b: bool)
    ensures
        b == exists|i: int| 0 <= i < actions@.len() && #[trigger] actions@[i].id@ == action_id@,
{
    let mut i: usize = 0;
    while i < actions.len()
        invariant
            i <= actions.len(),
            forall|j: int| 0 <= j < i ==> #[trigger] actions@[j].id@ != action_id@,
        decreases actions.len() - i,
    {
        if text_equals(actions[i].id.as_str(), action_id) {
            return true;
        }
        i = i + 1;
    }
    false
}

} // verus!
