//! The entries of the project list: stored projects, the working directory and the recent
//! files, with the text the list shows for each.

use vstd::prelude::*;

use crate::nvim::ext::CallError;
use crate::text::{contains_text, has_prefix, str_contains, str_eq, str_starts_with};
use crate::value::{array_of, str_of, Value};

verus! {

/// The recent file paths among `vs`: each string that is not a terminal buffer, in order.
pub open spec fn kept_files(vs: Seq<Value>) -> Seq<Seq<char>>
    decreases vs.len(),
{
    if vs.len() == 0 {
        Seq::empty()
    } else {
        let rest = kept_files(vs.drop_last());
        match str_of(vs.last()) {
            Some(p) => if has_prefix(p, "term:"@) {
                rest
            } else {
                rest.push(p)
            },
            None => rest,
        }
    }
}

/// The recent files that Neovim's `v:oldfiles` gives: the strings of the list that do not name
/// a terminal buffer; none where the call failed or gave no list.
pub open spec fn old_files_of(oldfiles: Result<Value, CallError>) -> Seq<Seq<char>> {
    match oldfiles {
        Ok(v) => match array_of(v) {
            Some(vs) => kept_files(vs),
            None => Seq::empty(),
        },
        Err(_) => Seq::empty(),
    }
}

/// The recent files to list, from the answer to reading `v:oldfiles`.
pub fn list_old_files(oldfiles: &Result<Value, CallError>) -> (r: Vec<String>)
    ensures
        r@.map_values(|s: String| s@) == old_files_of(*oldfiles),
{
    let mut files: Vec<String> = Vec::new();
    match oldfiles {
        Ok(v) => match v.as_array() {
            Some(vs) => {
                proof {
                    reveal_strlit("term:");
                }
                let mut i: usize = 0;
                while i < vs.len()
                    invariant
                        i <= vs@.len(),
                        array_of(*v) == Some(vs@),
                        files@.map_values(|s: String| s@) == kept_files(vs@.subrange(0, i as int)),
                    decreases vs@.len() - i,
                {
                    assert(vs@.subrange(0, i + 1).drop_last() =~= vs@.subrange(0, i as int));
                    match vs[i].as_str() {
                        Some(path) => {
                            if !str_starts_with(path, "term:") {
                                files.push(path.to_string());
                                assert(files@.map_values(|s: String| s@) =~= kept_files(vs@.subrange(0, i as int)).push(path@));
                            }
                        },
                        None => {},
                    }
                    i = i + 1;
                }
                assert(vs@.subrange(0, vs@.len() as int) =~= vs@);
            },
            None => {},
        },
        Err(_) => {},
    }
    files
}


/// What `htmlescape::encode_minimal` writes for one character: the five characters that HTML
/// text must not hold as entities, any other as it is.
pub open spec fn char_entity(c: char) -> Seq<char> {
    if c == '"' {
        "&quot;"@
    } else if c == '&' {
        "&amp;"@
    } else if c == '\'' {
        "&#x27;"@
    } else if c == '<' {
        "&lt;"@
    } else if c == '>' {
        "&gt;"@
    } else {
        seq![c]
    }
}

/// `s` entity-encoded for HTML text, character by character.
pub open spec fn html_escaped(s: Seq<char>) -> Seq<char>
    decreases s.len(),
{
    if s.len() == 0 {
        Seq::empty()
    } else {
        html_escaped(s.drop_last()) + char_entity(s.last())
    }
}

/// `s` entity-encoded for HTML text (htmlescape's `encode_minimal`): `"`, `&`, `'`, `<` and `>`
/// become `&quot;`, `&amp;`, `&#x27;`, `&lt;` and `&gt;`, every other character stays.
#[verifier::external_body]
fn encode_minimal(s: &str) -> (r: String)
    ensures
        r@ == html_escaped(s@),
{
    htmlescape::encode_minimal(s)
}

/// What `std::path::Path::parent` gives for `path`, as text.
pub uninterp spec fn parent_of(path: Seq<char>) -> Option<Seq<char>>;

/// The parent of `path` (std's `Path::parent`, read back as text).
#[verifier::external_body]
fn path_parent(path: &str) -> (r: Option<String>)
    ensures
        r.is_some() == parent_of(path@).is_some(),
        r matches Some(p) ==> p@ == parent_of(path@)->0,
{
    match std::path::Path::new(path).parent() {
        Some(p) => Some(p.to_string_lossy().into_owned()),
        None => None,
    }
}

/// What `std::path::Path::file_name` gives for `path`, as text.
pub uninterp spec fn file_name_of(path: Seq<char>) -> Option<Seq<char>>;

/// The last component of `path` (std's `Path::file_name`, read back as text).
#[verifier::external_body]
fn path_file_name(path: &str) -> (r: Option<String>)
    ensures
        r.is_some() == file_name_of(path@).is_some(),
        r matches Some(p) ==> p@ == file_name_of(path@)->0,
{
    match std::path::Path::new(path).file_name() {
        Some(f) => Some(f.to_string_lossy().into_owned()),
        None => None,
    }
}

/// What `str::to_uppercase` gives for `s`.
pub uninterp spec fn upper_case_of(s: Seq<char>) -> Seq<char>;

/// `s` in upper case (std's `str::to_uppercase`).
#[verifier::external_body]
fn upper_case(s: &str) -> (r: String)
    ensures
        r@ == upper_case_of(s@),
{
    s.to_uppercase()
}

/// The icon of a stored project, of the working directory, and of a recent file.
pub const BOOKMARKED_PIXBUF: &'static str = "user-bookmarks";

pub const CURRENT_DIR_PIXBUF: &'static str = "folder";

pub const PLAIN_FILE_PIXBUF: &'static str = "text-x-generic";

/// An entry of the project list: where it leads, the markup of its directory and of its name,
/// its name, its icon, and whether it is a project and a stored one.
#[derive(Debug)]
pub struct Entry {
    pub uri: String,
    pub path: String,
    pub file_name: String,
    pub name: String,
    pub pixbuf: String,
    pub project: bool,
    pub stored: bool,
}

/// What an entry holds.
pub struct EntryView {
    pub uri: Seq<char>,
    pub path: Seq<char>,
    pub file_name: Seq<char>,
    pub name: Seq<char>,
    pub pixbuf: Seq<char>,
    pub project: bool,
    pub stored: bool,
}

impl View for Entry {
    type V = EntryView;

    open spec fn view(&self) -> EntryView {
        EntryView {
            uri: self.uri@,
            path: self.path@,
            file_name: self.file_name@,
            name: self.name@,
            pixbuf: self.pixbuf@,
            project: self.project,
            stored: self.stored,
        }
    }
}

/// The directory of `uri` as the list shows it: small, entity-encoded; nothing where it has
/// no parent.
pub open spec fn directory_markup(uri: Seq<char>) -> Seq<char> {
    match parent_of(uri) {
        Some(p) => "<small>"@ + html_escaped(p) + "</small>"@,
        None => Seq::empty(),
    }
}

/// An entry for `uri` named `name` with icon `pixbuf`.
pub open spec fn entry_of(uri: Seq<char>, name: Seq<char>, pixbuf: Seq<char>, project: bool, stored: bool) -> EntryView {
    EntryView {
        uri,
        path: directory_markup(uri),
        file_name: html_escaped(name),
        name,
        pixbuf,
        project,
        stored,
    }
}

/// The name of the working directory `uri`: its last component, or all of it.
pub open spec fn current_project_name(uri: Seq<char>) -> Seq<char> {
    match file_name_of(uri) {
        Some(f) => f,
        None => uri,
    }
}

/// The name of the recent file `uri`: its last component, or `<empty>`.
pub open spec fn recent_file_name(uri: Seq<char>) -> Seq<char> {
    match file_name_of(uri) {
        Some(f) => f,
        None => "<empty>"@,
    }
}

/// The directory markup of `uri`.
fn directory_of(uri: &str) -> (r: String)
    ensures
        r@ == directory_markup(uri@),
{
    proof {
        reveal_strlit("<small>");
        reveal_strlit("</small>");
    }
    match path_parent(uri) {
        Some(p) => "<small>".to_string().concat(encode_minimal(p.as_str()).as_str()).concat("</small>"),
        None => String::new(),
    }
}

impl Entry {
    /// The entry of a stored project.
    pub fn new_project(name: &str, uri: &str) -> (r: Entry)
        ensures
            r@ == entry_of(uri@, name@, BOOKMARKED_PIXBUF@, true, true),
    {
        Entry {
            uri: uri.to_string(),
            path: directory_of(uri),
            file_name: encode_minimal(name),
            name: name.to_string(),
            pixbuf: BOOKMARKED_PIXBUF.to_string(),
            project: true,
            stored: true,
        }
    }

    /// The entry of the working directory, a project not stored.
    pub fn new_current_project(uri: &str) -> (r: Entry)
        ensures
            r@ == entry_of(uri@, current_project_name(uri@), CURRENT_DIR_PIXBUF@, true, false),
    {
        let name = match path_file_name(uri) {
            Some(f) => f,
            None => uri.to_string(),
        };
        Entry {
            uri: uri.to_string(),
            path: directory_of(uri),
            file_name: encode_minimal(name.as_str()),
            name,
            pixbuf: CURRENT_DIR_PIXBUF.to_string(),
            project: true,
            stored: false,
        }
    }

    /// The entry of a recent file.
    pub fn new_from_path(uri: &str) -> (r: Entry)
        ensures
            r@ == entry_of(uri@, recent_file_name(uri@), PLAIN_FILE_PIXBUF@, false, false),
    {
        proof {
            reveal_strlit("<empty>");
        }
        let name = match path_file_name(uri) {
            Some(f) => f,
            None => "<empty>".to_string(),
        };
        Entry {
            uri: uri.to_string(),
            path: directory_of(uri),
            file_name: encode_minimal(name.as_str()),
            name,
            pixbuf: PLAIN_FILE_PIXBUF.to_string(),
            project: false,
            stored: false,
        }
    }

    /// What a stored project keeps in the settings: its name and path.
    pub fn to_entry_settings(&self) -> (r: ProjectEntrySettings)
        ensures
            r.name@ == self.name@ && r.path@ == self.uri@,
    {
        ProjectEntrySettings::new(self.name.as_str(), self.uri.as_str())
    }

    /// Whether the entry is listed under the filter `filter`: any entry without one, else an
    /// entry whose name markup or directory markup holds the filter, compared in upper case.
    pub fn matches_filter(&self, filter: Option<&str>) -> (r: bool)
        ensures
            r == match filter {
                Some(f) => contains_text(upper_case_of(self.file_name@), upper_case_of(f@)) || contains_text(
                    upper_case_of(self.path@),
                    upper_case_of(f@),
                ),
                None => true,
            },
    {
        match filter {
            Some(f) => {
                let f = upper_case(f);
                str_contains(upper_case(self.file_name.as_str()).as_str(), f.as_str()) || str_contains(
                    upper_case(self.path.as_str()).as_str(),
                    f.as_str(),
                )
            },
            None => true,
        }
    }
}

/// A stored project in the settings: its name and path.
#[derive(Debug)]
pub struct ProjectEntrySettings {
    pub name: String,
    pub path: String,
}

impl ProjectEntrySettings {
    pub fn new(name: &str, path: &str) -> (r: ProjectEntrySettings)
        ensures
            r.name@ == name@ && r.path@ == path@,
    {
        ProjectEntrySettings { name: name.to_string(), path: path.to_string() }
    }

    /// The list entry of this stored project.
    pub fn to_entry(&self) -> (r: Entry)
        ensures
            r@ == entry_of(self.path@, self.name@, BOOKMARKED_PIXBUF@, true, true),
    {
        Entry::new_project(self.name.as_str(), self.path.as_str())
    }
}

/// The entries of the project list and whether the stored projects among them changed.
pub struct EntryStore {
    pub entries: Vec<Entry>,
    pub changed: bool,
}

/// The entries made of the stored projects, in order.
pub open spec fn project_entries(projects: Seq<ProjectEntrySettings>) -> Seq<EntryView> {
    projects.map_values(|p: ProjectEntrySettings| entry_of(p.path@, p.name@, BOOKMARKED_PIXBUF@, true, true))
}

/// Whether a project entry for `uri` is among `es`.
pub open spec fn has_project(es: Seq<EntryView>, uri: Seq<char>) -> bool {
    exists|k: int| 0 <= k < es.len() && (#[trigger] es[k]).project && es[k].uri == uri
}

/// The entries of the list: the stored projects, after the working directory where Neovim
/// gave it as a string and no stored project is it, then the recent files.
pub open spec fn loaded_entries(
    projects: Seq<ProjectEntrySettings>,
    cwd: Result<Value, CallError>,
    oldfiles: Result<Value, CallError>,
) -> Seq<EntryView> {
    let stored = project_entries(projects);
    let with_cwd = match cwd {
        Ok(v) => match str_of(v) {
            Some(pwd) => if has_project(stored, pwd) {
                stored
            } else {
                seq![entry_of(pwd, current_project_name(pwd), CURRENT_DIR_PIXBUF@, true, false)] + stored
            },
            None => stored,
        },
        Err(_) => stored,
    };
    with_cwd + old_files_of(oldfiles).map_values(|p: Seq<char>| entry_of(p, recent_file_name(p), PLAIN_FILE_PIXBUF@, false, false))
}

/// What the entries hold.
pub open spec fn entries_view(es: Seq<Entry>) -> Seq<EntryView> {
    es.map_values(|e: Entry| e@)
}

impl EntryStore {
    /// The list from the stored projects, the answer to `getcwd()` and the answer to reading
    /// `v:oldfiles`.
    pub fn load(projects: &Vec<ProjectEntrySettings>, cwd: &Result<Value, CallError>, oldfiles: &Result<Value, CallError>) -> (r:
        EntryStore)
        ensures
            entries_view(r.entries@) == loaded_entries(projects@, *cwd, *oldfiles),
            !r.changed,
    {
        let mut entries: Vec<Entry> = Vec::new();
        let mut i: usize = 0;
        while i < projects.len()
            invariant
                i <= projects@.len(),
                entries_view(entries@) == project_entries(projects@.subrange(0, i as int)),
            decreases projects@.len() - i,
        {
            let e = projects[i].to_entry();
            let ghost before = entries@;
            entries.push(e);
            assert(entries@ == before.push(e));
            assert(entries_view(entries@) =~= entries_view(before).push(e@));
            assert(project_entries(projects@.subrange(0, i + 1)) =~= project_entries(projects@.subrange(0, i as int)).push(
                entry_of(projects@[i as int].path@, projects@[i as int].name@, BOOKMARKED_PIXBUF@, true, true),
            ));
            i = i + 1;
        }
        assert(projects@.subrange(0, projects@.len() as int) =~= projects@);
        let ghost stored = entries_view(entries@);
        match cwd {
            Ok(v) => match v.as_str() {
                Some(pwd) => {
                    let found = Self::find_in(&entries, pwd);
                    if found.is_none() {
                        let ghost before = entries_view(entries@);
                        entries.insert(0, Entry::new_current_project(pwd));
                        assert(entries_view(entries@) =~= seq![
                            entry_of(pwd@, current_project_name(pwd@), CURRENT_DIR_PIXBUF@, true, false),
                        ] + before);
                    }
                },
                None => {},
            },
            Err(_) => {},
        }
        let ghost with_cwd = entries_view(entries@);
        let old_files = list_old_files(oldfiles);
        let ghost olds = old_files@.map_values(|s: String| s@);
        let mut k: usize = 0;
        while k < old_files.len()
            invariant
                k <= old_files@.len(),
                olds == old_files@.map_values(|s: String| s@),
                entries_view(entries@) == with_cwd + olds.subrange(0, k as int).map_values(
                    |p: Seq<char>| entry_of(p, recent_file_name(p), PLAIN_FILE_PIXBUF@, false, false),
                ),
            decreases old_files@.len() - k,
        {
            let e = Entry::new_from_path(old_files[k].as_str());
            let ghost before = entries@;
            entries.push(e);
            assert(entries_view(entries@) =~= entries_view(before).push(e@));
            assert(olds[k as int] == old_files@[k as int]@);
            assert(olds.subrange(0, k + 1).map_values(|p: Seq<char>| entry_of(p, recent_file_name(p), PLAIN_FILE_PIXBUF@, false, false))
                =~= olds.subrange(0, k as int).map_values(|p: Seq<char>| entry_of(p, recent_file_name(p), PLAIN_FILE_PIXBUF@, false, false)).push(
                entry_of(olds[k as int], recent_file_name(olds[k as int]), PLAIN_FILE_PIXBUF@, false, false),
            ));
            assert(entries_view(entries@) =~= with_cwd + olds.subrange(0, k + 1).map_values(
                |p: Seq<char>| entry_of(p, recent_file_name(p), PLAIN_FILE_PIXBUF@, false, false),
            ));
            k = k + 1;
        }
        assert(olds.subrange(0, old_files@.len() as int) =~= olds);
        EntryStore { entries, changed: false }
    }

    /// The index of the project entry for `uri` among `entries`, the first where several are.
    fn find_in(entries: &Vec<Entry>, uri: &str) -> (r: Option<usize>)
        ensures
            r is None <==> !has_project(entries_view(entries@), uri@),
            r matches Some(k) ==> k < entries@.len() && entries@[k as int].project && entries@[k as int].uri@ == uri@ && forall|j: int|
                0 <= j < k ==> !((#[trigger] entries@[j]).project && entries@[j].uri@ == uri@),
    {
        let mut i: usize = 0;
        while i < entries.len()
            invariant
                i <= entries@.len(),
                forall|j: int| 0 <= j < i ==> !((#[trigger] entries@[j]).project && entries@[j].uri@ == uri@),
            decreases entries@.len() - i,
        {
            if entries[i].project && str_eq(entries[i].uri.as_str(), uri) {
                assert(entries_view(entries@)[i as int].project && entries_view(entries@)[i as int].uri == uri@);
                return Some(i);
            }
            i = i + 1;
        }
        assert(!has_project(entries_view(entries@), uri@)) by {
            if has_project(entries_view(entries@), uri@) {
                let k = choose|k: int| 0 <= k < entries_view(entries@).len() && (#[trigger] entries_view(entries@)[k]).project
                    && entries_view(entries@)[k].uri == uri@;
                assert(entries@[k].project && entries@[k].uri@ == uri@);
            }
        }
        None
    }

    /// The index of the project entry for `uri`, the first where several are.
    pub fn find_mut(&self, uri: &str) -> (r: Option<usize>)
        ensures
            r is None <==> !has_project(entries_view(self.entries@), uri@),
            r matches Some(k) ==> k < self.entries@.len() && self.entries@[k as int].project && self.entries@[k as int].uri@
                == uri@,
    {
        Self::find_in(&self.entries, uri)
    }

    /// Marks the project entry for `uri` stored or not, and the stored projects changed.
    pub fn set_stored(&mut self, uri: &str, stored: bool)
        ensures
            final(self).changed,
            final(self).entries@.len() == old(self).entries@.len(),
            match Self::find_in_spec(old(self).entries@, uri@) {
                Some(k) => entries_view(final(self).entries@) == entries_view(old(self).entries@).update(
                    k,
                    EntryView { stored, ..old(self).entries@[k]@ },
                ),
                None => entries_view(final(self).entries@) == entries_view(old(self).entries@),
            },
    {
        match Self::find_in(&self.entries, uri) {
            Some(k) => {
                let ghost before = entries_view(self.entries@);
                let mut entry = self.entries.remove(k);
                entry.stored = stored;
                self.entries.insert(k, entry);
                assert(entries_view(self.entries@) =~= before.update(k as int, EntryView { stored, ..before[k as int] }));
            },
            None => {},
        }
        self.changed = true;
    }

    /// The index of the first project entry for `uri`.
    pub open spec fn find_in_spec(es: Seq<Entry>, uri: Seq<char>) -> Option<int> {
        if has_project(entries_view(es), uri) {
            Some(choose|k: int| 0 <= k < es.len() && es[k].project && es[k].uri@ == uri && forall|j: int|
                0 <= j < k ==> !((#[trigger] es[j]).project && es[j].uri@ == uri))
        } else {
            None
        }
    }

    /// The stored projects to write to the settings where they changed: each stored project
    /// entry's name and path, in order.
    pub fn save(&self) -> (r: Option<Vec<ProjectEntrySettings>>)
        ensures
            r.is_some() == self.changed,
            r matches Some(v) ==> v@.map_values(|p: ProjectEntrySettings| (p.name@, p.path@)) == stored_projects(
                entries_view(self.entries@),
                self.entries@.len() as int,
            ),
    {
        if !self.changed {
            return None;
        }
        let mut out: Vec<ProjectEntrySettings> = Vec::new();
        let mut i: usize = 0;
        while i < self.entries.len()
            invariant
                i <= self.entries@.len(),
                out@.map_values(|p: ProjectEntrySettings| (p.name@, p.path@)) == stored_projects(
                    entries_view(self.entries@),
                    i as int,
                ),
            decreases self.entries@.len() - i,
        {
            let e = &self.entries[i];
            if e.project && e.stored {
                out.push(e.to_entry_settings());
                assert(out@.map_values(|p: ProjectEntrySettings| (p.name@, p.path@)) =~= stored_projects(
                    entries_view(self.entries@),
                    i as int,
                ).push((e.name@, e.uri@)));
            }
            i = i + 1;
        }
        Some(out)
    }
}

/// The names and paths of the stored projects among the first `n` entries, in order.
pub open spec fn stored_projects(es: Seq<EntryView>, n: int) -> Seq<(Seq<char>, Seq<char>)>
    decreases n,
{
    if n <= 0 {
        Seq::empty()
    } else if es[n - 1].project && es[n - 1].stored {
        stored_projects(es, n - 1).push((es[n - 1].name, es[n - 1].uri))
    } else {
        stored_projects(es, n - 1)
    }
}

} // verus!
