//! What the configuration needs of the machine: the files that it names and the current directory.
use vstd::prelude::*;
use vstd::string::*;

verus! {

/// What came of reading a file. A failure holds the cause in words.
#[derive(Debug, PartialEq, Eq)]
pub enum FileContent {
    Text(String),
    CannotOpen(String),
    CannotRead(String),
}

/// What a [`FileContent`] holds, as mathematical values.
#[verifier::ext_equal]
pub enum FileContentModel {
    Text(Seq<char>),
    CannotOpen(Seq<char>),
    CannotRead(Seq<char>),
}

impl DeepView for FileContent {
    type V = FileContentModel;

    open spec fn deep_view(&self) -> FileContentModel {
        match self {
            FileContent::Text(x) => FileContentModel::Text(x@),
            FileContent::CannotOpen(x) => FileContentModel::CannotOpen(x@),
            FileContent::CannotRead(x) => FileContentModel::CannotRead(x@),
        }
    }
}

impl Clone for FileContent {
    fn clone(&self) -> (r: Self)
        ensures
            r.deep_view() == self.deep_view(),
    {
        match self {
            FileContent::Text(x) => FileContent::Text(x.clone()),
            FileContent::CannotOpen(x) => FileContent::CannotOpen(x.clone()),
            FileContent::CannotRead(x) => FileContent::CannotRead(x.clone()),
        }
    }
}

/// A file by its path.
#[derive(Debug, PartialEq, Eq)]
pub struct LoadedFile {
    pub path: String,
    pub content: FileContent,
}

/// What a [`LoadedFile`] holds, as mathematical values.
#[verifier::ext_equal]
pub struct LoadedFileModel {
    pub path: Seq<char>,
    pub content: FileContentModel,
}

impl DeepView for LoadedFile {
    type V = LoadedFileModel;

    open spec fn deep_view(&self) -> LoadedFileModel {
        LoadedFileModel {
            path: self.path@,
            content: self.content.deep_view(),
        }
    }
}

/// The current directory.
#[derive(Debug, PartialEq, Eq)]
pub enum CurrentDir {
    Unavailable,
    NotUnicode,
    Known(String),
}

/// What a [`CurrentDir`] holds, as mathematical values.
#[verifier::ext_equal]
pub enum CurrentDirModel {
    Unavailable,
    NotUnicode,
    Known(Seq<char>),
}

impl DeepView for CurrentDir {
    type V = CurrentDirModel;

    open spec fn deep_view(&self) -> CurrentDirModel {
        match self {
            CurrentDir::Unavailable => CurrentDirModel::Unavailable,
            CurrentDir::NotUnicode => CurrentDirModel::NotUnicode,
            CurrentDir::Known(x) => CurrentDirModel::Known(x@),
        }
    }
}

/// What was found on the machine.
#[derive(Debug, PartialEq, Eq)]
pub struct Environment {
    /// the files, each read once
    pub files: Vec<LoadedFile>,
    /// the answer to a request that no frontend matches, where a listener names no file
    pub answer_404: String,
    /// the answer for a cluster without available backend, where a listener names no file
    pub answer_503: String,
    pub current_dir: CurrentDir,
    /// the current directory as it is shown in error messages
    pub current_dir_shown: String,
}

/// What a [`Environment`] holds, as mathematical values.
#[verifier::ext_equal]
pub struct EnvironmentModel {
    pub files: Seq<LoadedFileModel>,
    pub answer_404: Seq<char>,
    pub answer_503: Seq<char>,
    pub current_dir: CurrentDirModel,
    pub current_dir_shown: Seq<char>,
}

impl DeepView for Environment {
    type V = EnvironmentModel;

    open spec fn deep_view(&self) -> EnvironmentModel {
        EnvironmentModel {
            files: self.files.deep_view(),
            answer_404: self.answer_404@,
            answer_503: self.answer_503@,
            current_dir: self.current_dir.deep_view(),
            current_dir_shown: self.current_dir_shown@,
        }
    }
}

/// The first file of `files` under `path`; a file that was not read cannot be opened.
pub open spec fn file_at(files: Seq<LoadedFileModel>, path: Seq<char>) -> FileContentModel
    decreases files.len(),
{
    if files.len() == 0 {
        FileContentModel::CannotOpen(Seq::empty())
    } else if files[0].path == path {
        files[0].content
    } else {
        file_at(files.drop_first(), path)
    }
}

impl FileContentModel {
    /// The text, unless reading failed.
    pub open spec fn text(self) -> Option<Seq<char>> {
        match self {
            FileContentModel::Text(text) => Some(text),
            _ => None,
        }
    }

    /// Why reading failed.
    pub open spec fn failure(self) -> Seq<char> {
        match self {
            FileContentModel::Text(text) => Seq::empty(),
            FileContentModel::CannotOpen(cause) => cause,
            FileContentModel::CannotRead(cause) => cause,
        }
    }
}

impl Environment {
    /// What came of reading the file at `path`.
    pub fn file(&self, path: &String) -> (r: FileContent)
        ensures
            r.deep_view() == file_at(self.deep_view().files, path@),
    {
        let mut i: usize = 0;
        let ghost files = self.files.deep_view();
        proof {
            assert(files.skip(0) =~= files);
        }
        while i < self.files.len()
            invariant
                i <= self.files.len(),
                files == self.files.deep_view(),
                file_at(files, path@) == file_at(files.skip(i as int), path@),
            decreases self.files.len() - i,
        {
            proof {
                assert(files.skip(i as int)[0] == files[i as int]);
                assert(files.skip(i as int).drop_first() =~= files.skip(i + 1));
            }
            if self.files[i].path == *path {
                return self.files[i].content.clone();
            }
            i = i + 1;
        }
        FileContent::CannotOpen(String::new())
    }

    /// The text of the file at `path`, or why it could not be read.
    pub fn load(&self, path: &String) -> (r: Result<String, String>)
        ensures
            match (r, file_at(self.deep_view().files, path@).text()) {
                (Ok(text), Some(t)) => text@ == t,
                (Err(cause), None) => cause@ == file_at(self.deep_view().files, path@).failure(),
                _ => false,
            },
    {
        match self.file(path) {
            FileContent::Text(text) => Ok(text),
            FileContent::CannotOpen(cause) => Err(cause),
            FileContent::CannotRead(cause) => Err(cause),
        }
    }

    /// The text of the file at `path` if a path is given and the file could be read.
    pub fn load_if_possible(&self, path: &Option<String>) -> (r: Option<String>)
        ensures
            r.deep_view() == text_at(self.deep_view().files, path.deep_view()),
    {
        match path {
            None => None,
            Some(path) => match self.load(path) {
                Ok(text) => Some(text),
                Err(_) => None,
            },
        }
    }
}

/// The text of the file at `path` if a path is given and the file could be read.
pub open spec fn text_at(files: Seq<LoadedFileModel>, path: Option<Seq<char>>) -> Option<
    Seq<char>,
> {
    match path {
        None => None,
        Some(path) => file_at(files, path).text(),
    }
}

} // verus!
