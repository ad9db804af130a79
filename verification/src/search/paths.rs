//! Where the search program is looked for, and which directories are indexed.
use crate::data;
use crate::text;
use vstd::prelude::*;

verus! {

/// A place where the search program may be: a folder below a directory.
#[derive(Debug)]
pub struct BinaryPlace {
    pub directory: String,
    pub folders: Vec<String>,
}

#[verifier::ext_equal]
pub struct BinaryPlaceView {
    pub directory: Seq<char>,
    pub folders: Seq<Seq<char>>,
}

impl View for BinaryPlace {
    type V = BinaryPlaceView;

    open spec fn view(&self) -> BinaryPlaceView {
        BinaryPlaceView { directory: self.directory@, folders: data::views(self.folders@) }
    }
}

/// A place in a directory.
pub open spec fn place(directory: Seq<char>, folders: Seq<Seq<char>>) -> BinaryPlaceView {
    BinaryPlaceView { directory, folders }
}

/// The places next to the running program.
pub open spec fn program_places(program_dir: Option<Seq<char>>) -> Seq<BinaryPlaceView> {
    match program_dir {
        Some(dir) => seq![
            place(dir, Seq::empty()),
            place(dir, seq!["bin"@]),
            place(dir, seq!["resources"@]),
        ],
        None => Seq::empty(),
    }
}

/// The places in the data directory.
pub open spec fn data_places(data_dir: Option<Seq<char>>) -> Seq<BinaryPlaceView> {
    match data_dir {
        Some(dir) => seq![place(dir, seq!["bin"@])],
        None => Seq::empty(),
    }
}

/// The places in the current directory and in those above it.
pub open spec fn ancestor_places(ancestors: Seq<Seq<char>>) -> Seq<BinaryPlaceView>
    decreases ancestors.len(),
{
    if ancestors.len() == 0 {
        Seq::empty()
    } else {
        let dir = ancestors.last();
        ancestor_places(ancestors.drop_last()).push(place(dir, Seq::empty())).push(
            place(dir, seq!["bin"@]),
        ).push(place(dir, seq!["support"@, "bin"@]))
    }
}

/// The places on the search path of the system.
pub open spec fn system_places(path_dirs: Seq<Seq<char>>) -> Seq<BinaryPlaceView> {
    path_dirs.map_values(|dir: Seq<char>| place(dir, Seq::empty()))
}

fn push_place(places: &mut Vec<BinaryPlace>, directory: &str, folders: Vec<String>)
    ensures
        data::views(final(places)@) == data::views(old(places)@).push(
            place(directory@, data::views(folders@)),
        ),
{
    places.push(BinaryPlace { directory: directory.to_owned(), folders });
    assert(data::views(places@) =~= data::views(old(places)@).push(
        place(directory@, data::views(folders@)),
    ));
}

fn no_folder() -> (r: Vec<String>)
    ensures
        data::views(r@) == Seq::<Seq<char>>::empty(),
{
    let out: Vec<String> = Vec::new();
    assert(data::views(out@) =~= Seq::<Seq<char>>::empty());
    out
}

fn one_folder(name: &str) -> (r: Vec<String>)
    ensures
        data::views(r@) == seq![name@],
{
    let mut out: Vec<String> = Vec::new();
    out.push(name.to_owned());
    assert(data::views(out@) =~= seq![name@]);
    out
}

fn two_folders(name: &str, inner: &str) -> (r: Vec<String>)
    ensures
        data::views(r@) == seq![name@, inner@],
{
    let mut out: Vec<String> = Vec::new();
    out.push(name.to_owned());
    out.push(inner.to_owned());
    assert(data::views(out@) =~= seq![name@, inner@]);
    out
}

/// Where the search program is looked for, in this order: next to the running program, in the data
/// directory, in the current directory and those above it, and on the search path of the system.
pub fn binary_places(
    program_dir: Option<&str>,
    data_dir: Option<&str>,
    ancestors: &Vec<String>,
    path_dirs: &Vec<String>,
) -> (r: Vec<BinaryPlace>)
    ensures
        data::views(r@) == program_places(
            match program_dir {
                Some(dir) => Some(dir@),
                None => None,
            },
        ) + data_places(
            match data_dir {
                Some(dir) => Some(dir@),
                None => None,
            },
        ) + ancestor_places(data::views(ancestors@)) + system_places(data::views(path_dirs@)),
{
    let ghost first = program_places(
        match program_dir {
            Some(dir) => Some(dir@),
            None => None,
        },
    );
    let ghost second = data_places(
        match data_dir {
            Some(dir) => Some(dir@),
            None => None,
        },
    );
    let mut places: Vec<BinaryPlace> = Vec::new();
    assert(data::views(places@) =~= Seq::empty());
    if let Some(dir) = program_dir {
        push_place(&mut places, dir, no_folder());
        push_place(&mut places, dir, one_folder("bin"));
        push_place(&mut places, dir, one_folder("resources"));
    }
    assert(data::views(places@) =~= first);
    if let Some(dir) = data_dir {
        push_place(&mut places, dir, one_folder("bin"));
    }
    assert(data::views(places@) =~= first + second);
    let ghost all = data::views(ancestors@);
    let mut i: usize = 0;
    assert(all.take(0) =~= Seq::empty());
    assert(first + second + ancestor_places(all.take(0)) =~= first + second);
    while i < ancestors.len()
        invariant
            i <= ancestors@.len(),
            all == data::views(ancestors@),
            data::views(places@) == first + second + ancestor_places(all.take(i as int)),
        decreases ancestors@.len() - i,
    {
        let dir = ancestors[i].as_str();
        push_place(&mut places, dir, no_folder());
        push_place(&mut places, dir, one_folder("bin"));
        push_place(&mut places, dir, two_folders("support", "bin"));
        i += 1;
        proof {
            assert(all.take(i as int).drop_last() =~= all.take(i - 1));
            assert(all.take(i as int).last() == dir@);
            assert(data::views(places@) =~= first + second + ancestor_places(all.take(i as int)));
        }
    }
    assert(all.take(i as int) =~= all);
    let ghost before = data::views(places@);
    let ghost system = system_places(data::views(path_dirs@));
    let mut k: usize = 0;
    assert(before + system.take(0) =~= before);
    while k < path_dirs.len()
        invariant
            k <= path_dirs@.len(),
            system == system_places(data::views(path_dirs@)),
            data::views(places@) == before + system.take(k as int),
        decreases path_dirs@.len() - k,
    {
        push_place(&mut places, path_dirs[k].as_str(), no_folder());
        k += 1;
        assert(system.take(k as int) =~= system.take(k - 1).push(system[k - 1]));
        assert(data::views(places@) =~= before + system.take(k as int));
    }
    assert(system.take(k as int) =~= system);
    places
}

/// A path, where it lies in the current directory if that is known, and whether there is a file.
#[derive(Debug)]
pub struct ProbedPath {
    pub path: String,
    pub is_absolute: bool,
    pub in_current: Option<String>,
    pub is_file: bool,
}

impl ProbedPath {
    /// The absolute path of the file, if there is one: a path that is not absolute lies in the current
    /// directory.
    pub open spec fn file(self) -> Option<Seq<char>> {
        self.file_of(self.path@)
    }

    /// The absolute path of the file, if there is one, for a path that is read without the white
    /// space around it.
    pub open spec fn trimmed_file(self) -> Option<Seq<char>> {
        self.file_of(text::trimmed(self.path@))
    }

    /// The absolute path of the file, if there is one, where this is the path.
    pub open spec fn file_of(self, path: Seq<char>) -> Option<Seq<char>> {
        if !self.is_file {
            None
        } else if self.is_absolute {
            Some(path)
        } else {
            data::option_view(self.in_current)
        }
    }

    fn absolute_file(&self, path: &str) -> (r: Option<String>)
        ensures
            data::option_view(r) == self.file_of(path@),
    {
        if !self.is_file {
            None
        } else if self.is_absolute {
            Some(path.to_owned())
        } else {
            self.in_current.clone()
        }
    }
}

/// The first file at the paths from `i` on.
pub open spec fn first_file(paths: Seq<ProbedPath>, i: int) -> Option<Seq<char>>
    decreases paths.len() - i,
{
    if i < 0 || i >= paths.len() {
        None
    } else if paths[i].file() is Some {
        paths[i].file()
    } else {
        first_file(paths, i + 1)
    }
}

/// The absolute path of the search program: the one that is configured, or else the first that is
/// found. A configured program that is not there is not replaced.
pub open spec fn resolved_binary(
    configured: Option<ProbedPath>,
    places: Seq<ProbedPath>,
) -> Option<Seq<char>> {
    match configured {
        Some(probed) => if text::blank(probed.path@) {
            first_file(places, 0)
        } else {
            probed.trimmed_file()
        },
        None => first_file(places, 0),
    }
}

/// The absolute path of the search program, from what was found at the configured path, if one is
/// given, and at the places where it is looked for. White space around a configured path does not
/// count.
pub fn resolve_tgrep_binary(configured: &Option<ProbedPath>, places: &Vec<ProbedPath>) -> (r: Option<
    String,
>)
    ensures
        data::option_view(r) == resolved_binary(*configured, places@),
{
    if let Some(probed) = configured {
        if !text::is_blank(probed.path.as_str()) {
            return probed.absolute_file(text::trim(probed.path.as_str()).as_str());
        }
    }
    find_file(places)
}

fn find_file(places: &Vec<ProbedPath>) -> (r: Option<String>)
    ensures
        data::option_view(r) == first_file(places@, 0),
{
    let mut i: usize = 0;
    while i < places.len()
        invariant
            i <= places@.len(),
            first_file(places@, 0) == first_file(places@, i as int),
        decreases places@.len() - i,
    {
        let found = places[i].absolute_file(places[i].path.as_str());
        if found.is_some() {
            return found;
        }
        i += 1;
    }
    None
}

proof fn lemma_first_file(paths: Seq<ProbedPath>, i: int)
    requires
        0 <= i,
        first_file(paths, i) is Some,
    ensures
        exists|k: int|
            0 <= k < paths.len() && (#[trigger] paths[k]).file() == first_file(paths, i),
    decreases paths.len() - i,
{
    if paths[i].file() is None {
        lemma_first_file(paths, i + 1);
    }
}

/// A search program that is resolved is a file that was found, by its absolute path: that at the
/// configured path where one is given, and one at the places otherwise.
pub proof fn law_resolved_program_is_there(configured: Option<ProbedPath>, places: Seq<ProbedPath>)
    requires
        resolved_binary(configured, places) is Some,
    ensures
        if configured is Some && !text::blank(configured->0.path@) {
            configured->0.is_file && resolved_binary(configured, places)
                == configured->0.trimmed_file()
        } else {
            exists|k: int|
                0 <= k < places.len() && (#[trigger] places[k]).is_file && places[k].file()
                    == resolved_binary(configured, places)
        },
{
    if !(configured is Some && !text::blank(configured->0.path@)) {
        lemma_first_file(places, 0);
    }
}

/// Whether the search program is there.
pub fn is_tgrep_available(configured: &Option<ProbedPath>, places: &Vec<ProbedPath>) -> (r: bool)
    ensures
        r == (resolved_binary(*configured, places@) is Some),
{
    match resolve_tgrep_binary(configured, places) {
        Some(_) => true,
        None => false,
    }
}

/// Whether a path is another, as it is written or once links are followed.
#[derive(Clone, Copy, Debug, PartialEq, Eq, Structural)]
pub struct SamePlace {
    pub as_written: bool,
    pub once_resolved: bool,
}

/// Whether some pair of paths is the same place.
pub open spec fn any_same(places: Seq<SamePlace>) -> bool {
    exists|i: int|
        0 <= i < places.len() && ((#[trigger] places[i]).as_written || places[i].once_resolved)
}

fn some_same(places: &Vec<SamePlace>) -> (r: bool)
    ensures
        r == any_same(places@),
{
    let mut i: usize = 0;
    while i < places.len()
        invariant
            i <= places@.len(),
            forall|k: int|
                0 <= k < i ==> !((#[trigger] places@[k]).as_written || places@[k].once_resolved),
        decreases places@.len() - i,
    {
        if places[i].as_written || places[i].once_resolved {
            return true;
        }
        i += 1;
    }
    false
}

/// Whether a path is written as that of a directory of the system.
pub open spec fn system_directory(path: Seq<char>) -> bool {
    ||| text::same_ignoring_case(path, "C:\\Windows"@)
    ||| text::same_ignoring_case(path, "C:\\Program Files"@)
    ||| text::same_ignoring_case(path, "C:\\Program Files (x86)"@)
    ||| text::same_ignoring_case(path, "C:\\ProgramData"@)
    ||| text::same_ignoring_case(path, "C:\\Users"@)
    ||| text::same_ignoring_case(path, "/home"@)
    ||| text::same_ignoring_case(path, "/Users"@)
    ||| text::same_ignoring_case(path, "/etc"@)
    ||| text::same_ignoring_case(path, "/var"@)
    ||| text::same_ignoring_case(path, "/usr"@)
}

/// What is known of a directory: how it is written, whether another holds it, how it compares with
/// the home directories that are known, and with the folders for settings in the home directory.
#[derive(Debug)]
pub struct DirectoryFacts {
    pub path: String,
    pub has_parent: bool,
    pub homes: Vec<SamePlace>,
    pub settings: Vec<SamePlace>,
    pub markers: RepoMarkers,
}

/// The files by which the root of a project is known.
#[derive(Clone, Copy, Debug, PartialEq, Eq, Structural)]
pub struct RepoMarkers {
    pub git: bool,
    pub cargo_toml: bool,
    pub package_json: bool,
    pub go_mod: bool,
    pub pyproject_toml: bool,
}

impl RepoMarkers {
    /// Whether one of the files is there.
    pub open spec fn any(self) -> bool {
        self.git || self.cargo_toml || self.package_json || self.go_mod || self.pyproject_toml
    }

    /// Whether one of the files is there.
    pub fn is_any(&self) -> (r: bool)
        ensures
            r == self.any(),
    {
        self.git || self.cargo_toml || self.package_json || self.go_mod || self.pyproject_toml
    }
}

impl DirectoryFacts {
    /// Whether the directory is a home directory or one of the system.
    pub open spec fn home_or_system(self) -> bool {
        !self.has_parent || any_same(self.homes@) || system_directory(self.path@)
    }

    /// Whether the directory bounds a search for a project.
    pub open spec fn boundary(self) -> bool {
        self.home_or_system() || any_same(self.settings@)
    }

    /// Whether the directory is the root of a project that is indexed.
    pub open spec fn indexable(self) -> bool {
        !self.boundary() && self.markers.any()
    }
}

/// Whether a directory is a home directory or one of the system.
pub fn is_user_home_or_system_root(facts: &DirectoryFacts) -> (r: bool)
    ensures
        r == facts.home_or_system(),
{
    if !facts.has_parent || some_same(&facts.homes) {
        return true;
    }
    let path = facts.path.as_str();
    text::eq_ignore_case(path, "C:\\Windows") || text::eq_ignore_case(path, "C:\\Program Files")
        || text::eq_ignore_case(path, "C:\\Program Files (x86)") || text::eq_ignore_case(
        path,
        "C:\\ProgramData",
    ) || text::eq_ignore_case(path, "C:\\Users") || text::eq_ignore_case(path, "/home")
        || text::eq_ignore_case(path, "/Users") || text::eq_ignore_case(path, "/etc")
        || text::eq_ignore_case(path, "/var") || text::eq_ignore_case(path, "/usr")
}

/// The names of the folders for settings in a home directory.
pub fn settings_folders() -> (r: Vec<String>)
    ensures
        data::views(r@) == seq![
            "AppData"@,
            "Local Settings"@,
            ".cursor"@,
            ".cursor-byok-v3"@,
            ".agents"@,
            ".cache"@,
            ".npm"@,
            ".cargo"@,
            ".rustup"@,
            ".vscode"@,
            ".config"@,
        ],
{
    let mut out: Vec<String> = Vec::new();
    out.push("AppData".to_owned());
    out.push("Local Settings".to_owned());
    out.push(".cursor".to_owned());
    out.push(".cursor-byok-v3".to_owned());
    out.push(".agents".to_owned());
    out.push(".cache".to_owned());
    out.push(".npm".to_owned());
    out.push(".cargo".to_owned());
    out.push(".rustup".to_owned());
    out.push(".vscode".to_owned());
    out.push(".config".to_owned());
    assert(data::views(out@) =~= seq![
        "AppData"@,
        "Local Settings"@,
        ".cursor"@,
        ".cursor-byok-v3"@,
        ".agents"@,
        ".cache"@,
        ".npm"@,
        ".cargo"@,
        ".rustup"@,
        ".vscode"@,
        ".config"@,
    ]);
    out
}

/// Whether a directory bounds a search for a project: a home directory, one of the system, or a
/// folder for settings.
pub fn is_home_or_config_boundary(facts: &DirectoryFacts) -> (r: bool)
    ensures
        r == facts.boundary(),
{
    is_user_home_or_system_root(facts) || some_same(&facts.settings)
}

/// Whether a directory is the root of a project that is indexed.
pub fn is_indexable_repo_root(facts: &DirectoryFacts) -> (r: bool)
    ensures
        r == facts.indexable(),
{
    if is_home_or_config_boundary(facts) {
        return false;
    }
    facts.markers.is_any()
}

/// The first directory from `i` on that is the root of a project, unless one that bounds the search
/// or the topmost comes first.
pub open spec fn root_from(ancestors: Seq<DirectoryFacts>, i: int) -> Option<Seq<char>>
    decreases ancestors.len() - i,
{
    if i < 0 || i >= ancestors.len() {
        None
    } else if !ancestors[i].has_parent || ancestors[i].boundary() {
        None
    } else if ancestors[i].markers.any() {
        Some(ancestors[i].path@)
    } else {
        root_from(ancestors, i + 1)
    }
}

/// The root of the project that a path belongs to: the nearest directory, from the path's own on
/// upwards, that is one, and else the path's own directory.
pub fn find_repo_root(ancestors: &Vec<DirectoryFacts>, own_directory: &str) -> (r: String)
    ensures
        r@ == (match root_from(ancestors@, 0) {
            Some(root) => root,
            None => own_directory@,
        }),
{
    let mut i: usize = 0;
    while i < ancestors.len()
        invariant
            i <= ancestors@.len(),
            root_from(ancestors@, 0) == root_from(ancestors@, i as int),
        decreases ancestors@.len() - i,
    {
        if !ancestors[i].has_parent || is_home_or_config_boundary(&ancestors[i]) {
            return own_directory.to_owned();
        }
        if ancestors[i].markers.is_any() {
            return ancestors[i].path.clone();
        }
        i += 1;
    }
    own_directory.to_owned()
}

/// A home directory, a folder for settings or the topmost directory is never indexed, and a root that
/// is found among the directories above a path is always one that is.
pub proof fn law_found_roots_are_indexable(ancestors: Seq<DirectoryFacts>, i: int)
    requires
        0 <= i,
    ensures
        i < ancestors.len() && (any_same(ancestors[i].homes@) || any_same(ancestors[i].settings@)
            || !ancestors[i].has_parent) ==> !ancestors[i].indexable(),
        root_from(ancestors, i) matches Some(root) ==> exists|k: int|
            i <= k < ancestors.len() && (#[trigger] ancestors[k]).path@ == root
                && ancestors[k].indexable(),
    decreases ancestors.len() - i,
{
    if i < ancestors.len() && ancestors[i].has_parent && !ancestors[i].boundary() {
        if ancestors[i].markers.any() {
            assert(ancestors[i].indexable());
        } else {
            law_found_roots_are_indexable(ancestors, i + 1);
        }
    }
}

/// The first place at which there is a file is the one that counts.
pub proof fn law_first_place_counts(places: Seq<ProbedPath>, i: int, at: int)
    requires
        0 <= i <= at < places.len(),
        places[at].file() is Some,
        forall|k: int| i <= k < at ==> (#[trigger] places[k]).file() is None,
    ensures
        first_file(places, i) == places[at].file(),
    decreases at - i,
{
    if i < at {
        assert(places[i].file() is None);
        law_first_place_counts(places, i + 1, at);
    }
}

/// A program that is configured is the one that is used, or none is; where none is configured, the
/// places are looked at.
pub proof fn law_configured_program_is_not_replaced(
    configured: ProbedPath,
    places: Seq<ProbedPath>,
)
    ensures
        !text::blank(configured.path@) && !configured.is_file ==> resolved_binary(
            Some(configured),
            places,
        ) is None,
        !text::blank(configured.path@) && configured.is_file && configured.is_absolute
            ==> resolved_binary(Some(configured), places) == Some(text::trimmed(configured.path@)),
        text::blank(configured.path@) ==> resolved_binary(Some(configured), places)
            == resolved_binary(None, places),
{
}

/// The nearest directory with a mark of a project is its root, where no boundary and no topmost
/// directory stands before it.
pub proof fn law_nearest_project_is_found(ancestors: Seq<DirectoryFacts>, i: int, at: int)
    requires
        0 <= i <= at < ancestors.len(),
        forall|k: int|
            i <= k <= at ==> (#[trigger] ancestors[k]).has_parent && !ancestors[k].boundary(),
        forall|k: int| i <= k < at ==> !(#[trigger] ancestors[k]).markers.any(),
        ancestors[at].markers.any(),
    ensures
        root_from(ancestors, i) == Some(ancestors[at].path@),
    decreases at - i,
{
    assert(ancestors[i].has_parent && !ancestors[i].boundary());
    if i < at {
        assert(!ancestors[i].markers.any());
        law_nearest_project_is_found(ancestors, i + 1, at);
    }
}

/// A search for a project ends without one at the first boundary.
pub proof fn law_search_ends_at_a_boundary(ancestors: Seq<DirectoryFacts>, i: int, at: int)
    requires
        0 <= i <= at < ancestors.len(),
        ancestors[at].boundary() || !ancestors[at].has_parent,
        forall|k: int| i <= k < at ==> !(#[trigger] ancestors[k]).markers.any(),
    ensures
        root_from(ancestors, i) is None,
    decreases at - i,
{
    if i < at {
        assert(!ancestors[i].markers.any());
        law_search_ends_at_a_boundary(ancestors, i + 1, at);
    }
}

/// The directories of the system are no projects, however their names are written.
pub proof fn law_system_directories_are_no_projects(facts: DirectoryFacts)
    requires
        text::same_ignoring_case(facts.path@, "/home"@) || text::same_ignoring_case(
            facts.path@,
            "/etc"@,
        ) || text::same_ignoring_case(facts.path@, "/usr"@) || text::same_ignoring_case(
            facts.path@,
            "/var"@,
        ) || text::same_ignoring_case(facts.path@, "/Users"@) || text::same_ignoring_case(
            facts.path@,
            "C:\\Windows"@,
        ) || text::same_ignoring_case(facts.path@, "C:\\Users"@) || !facts.has_parent,
    ensures
        facts.home_or_system(),
        facts.boundary(),
        !facts.indexable(),
{
}

/// Each directory from the current one upwards is looked into itself, in its folder for programs and in
/// its folder for support, in this order.
pub proof fn law_each_directory_is_looked_into(ancestors: Seq<Seq<char>>, i: int)
    requires
        0 <= i < ancestors.len(),
    ensures
        ancestor_places(ancestors).len() == 3 * ancestors.len(),
        ancestor_places(ancestors)[3 * i].directory == ancestors[i],
        ancestor_places(ancestors)[3 * i].folders.len() == 0,
        ancestor_places(ancestors)[3 * i + 1].directory == ancestors[i],
        ancestor_places(ancestors)[3 * i + 1].folders == seq!["bin"@],
        ancestor_places(ancestors)[3 * i + 2].directory == ancestors[i],
        ancestor_places(ancestors)[3 * i + 2].folders == seq!["support"@, "bin"@],
    decreases ancestors.len(),
{
    lemma_three_places_each(ancestors);
    lemma_three_places_each(ancestors.drop_last());
    if i < ancestors.len() - 1 {
        law_each_directory_is_looked_into(ancestors.drop_last(), i);
        assert(ancestors.drop_last()[i] == ancestors[i]);
    }
}

proof fn lemma_three_places_each(ancestors: Seq<Seq<char>>)
    ensures
        ancestor_places(ancestors).len() == 3 * ancestors.len(),
    decreases ancestors.len(),
{
    if ancestors.len() > 0 {
        lemma_three_places_each(ancestors.drop_last());
    }
}

} // verus!
