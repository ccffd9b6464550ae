use vstd::prelude::*;

use crate::strings::str_eq;

verus! {

/// Mathematical model of one file: its path, raw text and provenance URL.
pub struct FileV {
    pub name: Seq<char>,
    pub content: Seq<char>,
    pub download_url: Seq<char>,
}

/// One file of the repository. The content is never changed after loading;
/// the pipeline only reads it.
#[derive(Debug)]
pub struct File {
    pub name: String,
    pub content: String,
    pub download_url: String,
}

impl View for File {
    type V = FileV;

    open spec fn view(&self) -> FileV {
        FileV { name: self.name@, content: self.content@, download_url: self.download_url@ }
    }
}

impl DeepView for File {
    type V = FileV;

    open spec fn deep_view(&self) -> FileV {
        self.view()
    }
}

/// Mathematical model of one folder: its path and its files in the order
/// they were inserted.
pub struct FolderV {
    pub name: Seq<char>,
    pub files: Seq<FileV>,
}

/// One folder of the repository, holding files keyed by their unique names.
#[derive(Debug)]
pub struct Folder {
    pub name: String,
    pub files: Vec<File>,
}

impl View for Folder {
    type V = FolderV;

    open spec fn view(&self) -> FolderV {
        FolderV { name: self.name@, files: self.files.deep_view() }
    }
}

impl DeepView for Folder {
    type V = FolderV;

    open spec fn deep_view(&self) -> FolderV {
        self.view()
    }
}

/// Mathematical model of the loaded repository: its folders in discovery
/// order, and the optional readme text.
pub struct RepositoryContentV {
    pub folders: Seq<FolderV>,
    pub readme: Seq<char>,
}

/// The whole loaded repository: folders keyed by their unique names, kept in
/// the order the loader discovered them.
#[derive(Debug)]
pub struct RepositoryContent {
    pub folders: Vec<Folder>,
    pub readme: String,
}

impl View for RepositoryContent {
    type V = RepositoryContentV;

    open spec fn view(&self) -> RepositoryContentV {
        RepositoryContentV { folders: self.folders.deep_view(), readme: self.readme@ }
    }
}

/// One entry of the repository hosting service's recursive tree listing.
#[derive(Debug)]
pub struct GitTree {
    pub path: String,
    pub object_type: String,
    pub sha: String,
}

/// Mathematical model of a tree listing entry.
pub struct GitTreeV {
    pub path: Seq<char>,
    pub object_type: Seq<char>,
    pub sha: Seq<char>,
}

impl View for GitTree {
    type V = GitTreeV;

    open spec fn view(&self) -> GitTreeV {
        GitTreeV { path: self.path@, object_type: self.object_type@, sha: self.sha@ }
    }
}

impl DeepView for GitTree {
    type V = GitTreeV;

    open spec fn deep_view(&self) -> GitTreeV {
        self.view()
    }
}

/// The names of a folder's files, in order.
pub open spec fn file_names(files: Seq<FileV>) -> Seq<Seq<char>> {
    files.map_values(|f: FileV| f.name)
}

/// The names of the repository's folders, in order.
pub open spec fn folder_names(folders: Seq<FolderV>) -> Seq<Seq<char>> {
    folders.map_values(|f: FolderV| f.name)
}

/// The first position holding `name`, or -1 when no position does.
pub open spec fn index_of_name(names: Seq<Seq<char>>, name: Seq<char>) -> int
    decreases names.len(),
{
    if names.len() == 0 {
        -1
    } else if names[0] == name {
        0
    } else {
        let r = index_of_name(names.drop_first(), name);
        if r == -1 {
            -1
        } else {
            r + 1
        }
    }
}

/// `index_of_name` finds the first position holding the name, and -1 exactly
/// when the name is absent.
pub proof fn lemma_index_of_name(names: Seq<Seq<char>>, name: Seq<char>)
    ensures
        ({
            let i = index_of_name(names, name);
            &&& -1 <= i < names.len()
            &&& i >= 0 ==> names[i] == name
            &&& forall|j: int| 0 <= j < i ==> names[j] != name
            &&& i == -1 ==> forall|j: int| 0 <= j < names.len() ==> names[j] != name
        }),
    decreases names.len(),
{
    if names.len() == 0 {
    } else if names[0] == name {
    } else {
        let t = names.drop_first();
        lemma_index_of_name(t, name);
        assert(forall|j: int| 0 <= j < t.len() ==> t[j] == names[j + 1]);
        let r = index_of_name(t, name);
        if r == -1 {
            assert forall|j: int| 0 <= j < names.len() implies names[j] != name by {
                if j > 0 {
                    assert(t[j - 1] == names[j]);
                }
            }
        } else {
            assert(names[r + 1] == t[r]);
            assert forall|j: int| 0 <= j < r + 1 implies names[j] != name by {
                if j > 0 {
                    assert(t[j - 1] == names[j]);
                }
            }
        }
    }
}

/// The folders a recursive tree listing's first `upto` entries yield: one
/// empty folder per entry of type "tree", named by its path, in listing
/// order; a repeated path replaces the earlier folder.
pub open spec fn folders_of_tree(entries: Seq<GitTreeV>, upto: int) -> Seq<FolderV>
    decreases upto,
{
    if upto <= 0 {
        Seq::empty()
    } else {
        let prev = folders_of_tree(entries, upto - 1);
        let e = entries[upto - 1];
        if e.object_type == "tree"@ {
            let f = FolderV { name: e.path, files: Seq::empty() };
            let i = index_of_name(folder_names(prev), e.path);
            if i >= 0 {
                prev.update(i, f)
            } else {
                prev.push(f)
            }
        } else {
            prev
        }
    }
}

/// The rendered form of one file: its name, a separating colon, its content
/// and a line break.
pub open spec fn render_file(f: FileV) -> Seq<char> {
    f.name + ": "@ + f.content + "\n"@
}

/// The rendered form of a folder's files, one after the other.
pub open spec fn render_files(files: Seq<FileV>) -> Seq<char>
    decreases files.len(),
{
    if files.len() == 0 {
        Seq::empty()
    } else {
        render_file(files[0]) + render_files(files.drop_first())
    }
}

/// The rendered form of one folder: a heading with its name, then its
/// rendered files.
pub open spec fn render_folder(f: FolderV) -> Seq<char> {
    "## name: "@ + f.name + ", files: "@ + render_files(f.files) + "\n"@
}

/// The rendered form of the whole model, folder after folder.
pub open spec fn render_content(folders: Seq<FolderV>) -> Seq<char>
    decreases folders.len(),
{
    if folders.len() == 0 {
        Seq::empty()
    } else {
        render_folder(folders[0]) + render_content(folders.drop_first())
    }
}

/// Distinct names: no two positions hold the same name.
pub open spec fn distinct_names(names: Seq<Seq<char>>) -> bool {
    forall|i: int, j: int| 0 <= i < j < names.len() ==> names[i] != names[j]
}

impl FolderV {
    /// File names are unique within the folder.
    pub open spec fn wf(self) -> bool {
        distinct_names(file_names(self.files))
    }
}

impl RepositoryContentV {
    /// Folder names are unique within the repository, and every folder is
    /// well formed.
    pub open spec fn wf(self) -> bool {
        &&& distinct_names(folder_names(self.folders))
        &&& forall|i: int| 0 <= i < self.folders.len() ==> self.folders[i].wf()
    }
}

impl File {
    /// Builds a file from its path, raw text and provenance URL.
    pub fn new(name: &str, content: &str, download_url: &str) -> (f: File)
        ensures
            f@ == (FileV { name: name@, content: content@, download_url: download_url@ }),
    {
        File {
            name: name.to_owned(),
            content: content.to_owned(),
            download_url: download_url.to_owned(),
        }
    }
}

impl Folder {
    /// Builds an empty folder with the given path.
    pub fn new(name: &str) -> (f: Folder)
        ensures
            f@.name == name@,
            f@.files == Seq::<FileV>::empty(),
            f@.wf(),
    {
        let f = Folder { name: name.to_owned(), files: Vec::new() };
        proof {
            assert(f@.files =~= Seq::<FileV>::empty());
            assert(file_names(f@.files) =~= Seq::<Seq<char>>::empty());
        }
        f
    }

    /// The position of the file with the given name, if the folder has one.
    pub fn file_position(&self, name: &str) -> (r: Option<usize>)
        ensures
            ({
                let i = index_of_name(file_names(self@.files), name@);
                match r {
                    Some(k) => k == i && 0 <= i < self@.files.len(),
                    None => i == -1,
                }
            }),
    {
        let ghost names = file_names(self@.files);
        proof {
            lemma_index_of_name(names, name@);
        }
        let mut k: usize = 0;
        while k < self.files.len()
            invariant
                0 <= k <= self.files.len(),
                names == file_names(self@.files),
                names.len() == self.files.len(),
                forall|j: int| 0 <= j < k ==> names[j] != name@,
                ({
                    let i = index_of_name(names, name@);
                    &&& -1 <= i < names.len()
                    &&& i >= 0 ==> names[i] == name@
                    &&& forall|j: int| 0 <= j < i ==> names[j] != name@
                    &&& i == -1 ==> forall|j: int| 0 <= j < names.len() ==> names[j] != name@
                }),
            decreases self.files.len() - k,
        {
            if str_eq(self.files[k].name.as_str(), name) {
                proof {
                    let i = index_of_name(names, name@);
                    assert(names[k as int] == name@);
                    assert(i >= 0);
                    if i < k {
                        assert(names[i] == name@);
                    }
                    if i > k {
                        assert(names[k as int] != name@);
                    }
                }
                return Some(k);
            }
            k = k + 1;
        }
        None
    }

    /// Adds a file to the folder; a file already held under the same name is
    /// replaced in place, otherwise the file is appended.
    pub fn insert_file(&mut self, file: File)
        ensures
            final(self)@.name == old(self)@.name,
            ({
                let i = index_of_name(file_names(old(self)@.files), file@.name);
                final(self)@.files == if i >= 0 {
                    old(self)@.files.update(i, file@)
                } else {
                    old(self)@.files.push(file@)
                }
            }),
            old(self)@.wf() ==> final(self)@.wf(),
    {
        let ghost old_files = self@.files;
        let ghost names = file_names(old_files);
        proof {
            lemma_index_of_name(names, file@.name);
        }
        let position = self.file_position(file.name.as_str());
        match position {
            Some(k) => {
                self.files[k] = file;
                proof {
                    let i = index_of_name(names, file@.name);
                    assert(self@.files =~= old_files.update(i, file@));
                    assert(file_names(self@.files) =~= names.update(i, file@.name));
                    assert(names[i] == file@.name);
                    assert(file_names(self@.files) =~= names);
                }
            },
            None => {
                self.files.push(file);
                proof {
                    assert(self@.files =~= old_files.push(file@));
                    assert(file_names(self@.files) =~= names.push(file@.name));
                    if distinct_names(names) {
                        assert(forall|j: int|
                            0 <= j < names.len() ==> names[j] != file@.name);
                        assert(distinct_names(names.push(file@.name)));
                    }
                }
            },
        }
    }

    /// The file with the given name, if the folder has one.
    pub fn find_file(&self, name: &str) -> (r: Option<&File>)
        ensures
            ({
                let i = index_of_name(file_names(self@.files), name@);
                match r {
                    Some(f) => i >= 0 && f@ == self@.files[i],
                    None => i == -1,
                }
            }),
    {
        match self.file_position(name) {
            Some(k) => Some(&self.files[k]),
            None => None,
        }
    }
}

/// Renders a folder's files, one after the other.
fn render_files_string(files: &Vec<File>) -> (r: String)
    ensures
        r@ == render_files(files.deep_view()),
{
    let ghost fv = files.deep_view();
    let mut r = String::new();
    proof {
        assert(fv.skip(0) =~= fv);
        assert(r@ + render_files(fv) =~= render_files(fv));
    }
    let mut i: usize = 0;
    while i < files.len()
        invariant
            0 <= i <= files.len(),
            fv == files.deep_view(),
            fv.len() == files.len(),
            r@ + render_files(fv.skip(i as int)) == render_files(fv),
        decreases files.len() - i,
    {
        proof {
            assert(fv[i as int] == files@[i as int].deep_view());
            assert(fv.skip(i as int)[0] == fv[i as int]);
            assert(fv.skip(i as int).drop_first() =~= fv.skip(i + 1));
        }
        r.append(files[i].name.as_str());
        r.append(": ");
        r.append(files[i].content.as_str());
        r.append("\n");
        proof {
            assert(r@ + render_files(fv.skip(i + 1)) =~= render_files(fv));
        }
        i = i + 1;
    }
    proof {
        assert(fv.skip(files.len() as int) =~= Seq::<FileV>::empty());
        assert(r@ =~= render_files(fv));
    }
    r
}

impl Default for RepositoryContent {
    /// An empty repository: no folders, no readme.
    fn default() -> (c: RepositoryContent)
        ensures
            c@.folders == Seq::<FolderV>::empty(),
            c@.readme == Seq::<char>::empty(),
            c@.wf(),
    {
        let c = RepositoryContent { folders: Vec::new(), readme: String::new() };
        proof {
            assert(c@.folders =~= Seq::<FolderV>::empty());
            assert(folder_names(c@.folders) =~= Seq::<Seq<char>>::empty());
        }
        c
    }
}

impl RepositoryContent {
    /// The position of the folder with the given name, if the repository has
    /// one.
    pub fn folder_position(&self, name: &str) -> (r: Option<usize>)
        ensures
            ({
                let i = index_of_name(folder_names(self@.folders), name@);
                match r {
                    Some(k) => k == i && 0 <= i < self@.folders.len(),
                    None => i == -1,
                }
            }),
    {
        let ghost names = folder_names(self@.folders);
        proof {
            lemma_index_of_name(names, name@);
        }
        let mut k: usize = 0;
        while k < self.folders.len()
            invariant
                0 <= k <= self.folders.len(),
                names == folder_names(self@.folders),
                names.len() == self.folders.len(),
                forall|j: int| 0 <= j < k ==> names[j] != name@,
                ({
                    let i = index_of_name(names, name@);
                    &&& -1 <= i < names.len()
                    &&& i >= 0 ==> names[i] == name@
                    &&& forall|j: int| 0 <= j < i ==> names[j] != name@
                    &&& i == -1 ==> forall|j: int| 0 <= j < names.len() ==> names[j] != name@
                }),
            decreases self.folders.len() - k,
        {
            if str_eq(self.folders[k].name.as_str(), name) {
                proof {
                    let i = index_of_name(names, name@);
                    assert(names[k as int] == name@);
                    if i < k {
                        assert(names[i] == name@);
                    }
                    if i > k {
                        assert(names[k as int] != name@);
                    }
                }
                return Some(k);
            }
            k = k + 1;
        }
        None
    }

    /// Adds a folder to the repository; a folder already held under the same
    /// name is replaced in place, otherwise the folder is appended.
    pub fn insert_folder(&mut self, folder: Folder)
        ensures
            final(self)@.readme == old(self)@.readme,
            ({
                let i = index_of_name(folder_names(old(self)@.folders), folder@.name);
                final(self)@.folders == if i >= 0 {
                    old(self)@.folders.update(i, folder@)
                } else {
                    old(self)@.folders.push(folder@)
                }
            }),
            old(self)@.wf() && folder@.wf() ==> final(self)@.wf(),
    {
        let ghost old_folders = self@.folders;
        let ghost names = folder_names(old_folders);
        proof {
            lemma_index_of_name(names, folder@.name);
        }
        let position = self.folder_position(folder.name.as_str());
        match position {
            Some(k) => {
                self.folders[k] = folder;
                proof {
                    let i = index_of_name(names, folder@.name);
                    assert(self@.folders =~= old_folders.update(i, folder@));
                    assert(folder_names(self@.folders) =~= names.update(i, folder@.name));
                    assert(names[i] == folder@.name);
                    assert(folder_names(self@.folders) =~= names);
                }
            },
            None => {
                self.folders.push(folder);
                proof {
                    assert(self@.folders =~= old_folders.push(folder@));
                    assert(folder_names(self@.folders) =~= names.push(folder@.name));
                    if distinct_names(names) {
                        assert(forall|j: int|
                            0 <= j < names.len() ==> names[j] != folder@.name);
                        assert(distinct_names(names.push(folder@.name)));
                    }
                }
            },
        }
    }

    /// Builds the model's folders from a recursive tree listing: every entry
    /// of type "tree" becomes an empty folder named by its path, in listing
    /// order; a repeated path replaces the earlier folder. Entries of any
    /// other type yield no folder.
    pub fn from_tree(tree: &Vec<GitTree>) -> (c: RepositoryContent)
        ensures
            c@.folders == folders_of_tree(tree.deep_view(), tree.deep_view().len() as int),
            c@.readme == Seq::<char>::empty(),
            c@.wf(),
    {
        let ghost tv = tree.deep_view();
        let mut c = RepositoryContent::default();
        let mut i: usize = 0;
        while i < tree.len()
            invariant
                0 <= i <= tree.len(),
                tv == tree.deep_view(),
                tv.len() == tree.len(),
                c@.folders == folders_of_tree(tv, i as int),
                c@.readme == Seq::<char>::empty(),
                c@.wf(),
            decreases tree.len() - i,
        {
            proof {
                assert(tv[i as int] == tree@[i as int].deep_view());
            }
            if str_eq(tree[i].object_type.as_str(), "tree") {
                let folder = Folder::new(tree[i].path.as_str());
                proof {
                    assert(folder@ == (FolderV {
                        name: tv[i as int].path,
                        files: Seq::<FileV>::empty(),
                    }));
                }
                c.insert_folder(folder);
            }
            proof {
                assert(c@.folders == folders_of_tree(tv, i + 1));
            }
            i = i + 1;
        }
        c
    }

    /// The folder with the given name, if the repository has one.
    pub fn find_folder(&self, name: &str) -> (r: Option<&Folder>)
        ensures
            ({
                let i = index_of_name(folder_names(self@.folders), name@);
                match r {
                    Some(f) => i >= 0 && f@ == self@.folders[i],
                    None => i == -1,
                }
            }),
    {
        match self.folder_position(name) {
            Some(k) => Some(&self.folders[k]),
            None => None,
        }
    }

    /// Renders the whole model as text: one heading per folder, in order,
    /// each holding the folder's name and its files with their contents.
    pub fn to_string(&self) -> (r: String)
        ensures
            r@ == render_content(self@.folders),
    {
        let ghost dv = self@.folders;
        let mut r = String::new();
        proof {
            assert(dv.skip(0) =~= dv);
            assert(r@ + render_content(dv) =~= render_content(dv));
        }
        let mut i: usize = 0;
        while i < self.folders.len()
            invariant
                0 <= i <= self.folders.len(),
                dv == self@.folders,
                dv.len() == self.folders.len(),
                r@ + render_content(dv.skip(i as int)) == render_content(dv),
            decreases self.folders.len() - i,
        {
            proof {
                assert(dv[i as int] == self.folders@[i as int].deep_view());
                assert(dv.skip(i as int)[0] == dv[i as int]);
                assert(dv.skip(i as int).drop_first() =~= dv.skip(i + 1));
            }
            let files = render_files_string(&self.folders[i].files);
            r.append("## name: ");
            r.append(self.folders[i].name.as_str());
            r.append(", files: ");
            r.append(files.as_str());
            r.append("\n");
            proof {
                assert(r@ + render_content(dv.skip(i + 1)) =~= render_content(dv));
            }
            i = i + 1;
        }
        proof {
            assert(dv.skip(self.folders.len() as int) =~= Seq::<FolderV>::empty());
            assert(r@ =~= render_content(dv));
        }
        r
    }
}

} // verus!
