//! What the editor remembers between runs: which edit log belongs to
//! which file, and where the structure programs are.

use vstd::prelude::*;
use vstd::string::StringExecFns;
use crate::text::{numeral, push_numeral};

verus! {

/// Where a structure program is stored.
pub struct CfgEntryStruct {
    pub path: String,
}

/// What is remembered of one file: the name of its edit log.
pub struct CfgEntryFile {
    undo_file_name: String,
}

impl View for CfgEntryFile {
    type V = Seq<char>;

    closed spec fn view(&self) -> Seq<char> {
        self.undo_file_name@
    }
}

/// Why no entry could be made.
#[derive(Clone, Copy, Debug, PartialEq, Eq, Structural)]
pub enum ConfigError {
    /// Every name that an edit log can have is taken.
    NamesExhausted,
}

/// The name of the `i`-th edit log: `undo-` and the number.
pub open spec fn undo_name(i: nat) -> Seq<char> {
    "undo-"@ + numeral(i, 10)
}

/// The names as mathematical values.
pub open spec fn names_view(names: Seq<String>) -> Seq<Seq<char>> {
    names.map_values(|s: String| s@)
}

/// Whether `i` is the first number whose name is not among `taken`.
pub open spec fn is_first_free(taken: Seq<Seq<char>>, i: nat) -> bool {
    !taken.contains(undo_name(i)) && forall|j: nat| j < i ==> taken.contains(#[trigger] undo_name(j))
}

fn contains_name(names: &Vec<String>, name: &String) -> (found: bool)
    ensures
        found == names_view(names@).contains(name@),
{
    let mut i: usize = 0;
    while i < names.len()
        invariant
            i <= names@.len(),
            forall|j: int| 0 <= j < i ==> names_view(names@)[j] != name@,
        decreases names@.len() - i,
    {
        if names[i] == *name {
            assert(names_view(names@)[i as int] == name@);
            return true;
        }
        i += 1;
    }
    false
}

impl CfgEntryFile {
    /// An entry with the first name of an edit log that is not among
    /// `taken`.
    pub fn new(taken: &Vec<String>) -> (r: Result<CfgEntryFile, ConfigError>)
        ensures
            match r {
                Ok(entry) => exists|i: nat| is_first_free(names_view(taken@), i) && entry@ == undo_name(i),
                Err(_) => forall|j: nat| j < u64::MAX ==> names_view(taken@).contains(#[trigger] undo_name(j)),
            },
    {
        let mut i: u64 = 0;
        while i < u64::MAX
            invariant
                forall|j: nat| j < i ==> names_view(taken@).contains(#[trigger] undo_name(j)),
            decreases u64::MAX - i,
        {
            let mut name = String::from_str("undo-");
            push_numeral(&mut name, i, 10);
            if !contains_name(taken, &name) {
                assert(is_first_free(names_view(taken@), i as nat));
                return Ok(CfgEntryFile { undo_file_name: name });
            }
            i += 1;
        }
        Err(ConfigError::NamesExhausted)
    }

    /// An entry with a given name.
    pub fn named(undo_file_name: String) -> (entry: CfgEntryFile)
        ensures
            entry@ == undo_file_name@,
    {
        CfgEntryFile { undo_file_name }
    }

    /// The name of the edit log.
    pub fn undo_file_name(&self) -> (name: &str)
        ensures
            name@ == self@,
    {
        self.undo_file_name.as_str()
    }
}

/// What the editor remembers.
pub struct Config {
    files: Vec<(String, CfgEntryFile)>,
    structs: Vec<CfgEntryStruct>,
}

/// What the editor remembers, as a mathematical value.
pub struct ConfigView {
    /// Each file with the name of its edit log.
    pub files: Seq<(Seq<char>, Seq<char>)>,
    /// The paths of the structure programs.
    pub structs: Seq<Seq<char>>,
}

/// The name of the edit log that is remembered for `file`.
pub open spec fn remembered(files: Seq<(Seq<char>, Seq<char>)>, file: Seq<char>) -> Option<Seq<char>>
    decreases files.len(),
{
    if files.len() == 0 {
        None
    } else if files[0].0 == file {
        Some(files[0].1)
    } else {
        remembered(files.drop_first(), file)
    }
}

impl View for Config {
    type V = ConfigView;

    closed spec fn view(&self) -> ConfigView {
        ConfigView {
            files: self.files@.map_values(|e: (String, CfgEntryFile)| (e.0@, e.1@)),
            structs: self.structs@.map_values(|s: CfgEntryStruct| s.path@),
        }
    }
}

impl Config {
    /// Nothing remembered.
    pub fn new() -> (config: Config)
        ensures
            config@.files.len() == 0,
            config@.structs.len() == 0,
    {
        Config { files: Vec::new(), structs: Vec::new() }
    }

    /// A configuration of the given entries.
    pub fn from_parts(files: Vec<(String, CfgEntryFile)>, structs: Vec<CfgEntryStruct>) -> (config: Config)
        ensures
            config@.files == files@.map_values(|e: (String, CfgEntryFile)| (e.0@, e.1@)),
            config@.structs == structs@.map_values(|s: CfgEntryStruct| s.path@),
    {
        Config { files, structs }
    }

    /// The files that are remembered, each with its entry.
    pub fn files(&self) -> (files: &Vec<(String, CfgEntryFile)>)
        ensures
            files@.map_values(|e: (String, CfgEntryFile)| (e.0@, e.1@)) == self@.files,
    {
        &self.files
    }

    /// The structure programs.
    pub fn get_structs(&self) -> (structs: &Vec<CfgEntryStruct>)
        ensures
            structs@.map_values(|s: CfgEntryStruct| s.path@) == self@.structs,
    {
        &self.structs
    }

    /// The name of the edit log of `for_filename`. A file that is not
    /// remembered gets the first name that is not among `taken`, and is
    /// remembered with it from then on; the second part of the result
    /// says whether that happened.
    pub fn get_undo_filename(&mut self, for_filename: &String, taken: &Vec<String>) -> (r: Result<
        (String, bool),
        ConfigError,
    >)
        ensures
            final(self)@.structs == old(self)@.structs,
            match remembered(old(self)@.files, for_filename@) {
                Some(name) => r matches Ok((found, added)) && found@ == name && !added && final(self)@ == old(
                    self,
                )@,
                None => match r {
                    Ok((found, added)) => added && final(self)@.files == old(self)@.files.push(
                        (for_filename@, found@),
                    ) && exists|i: nat| is_first_free(names_view(taken@), i) && found@ == undo_name(i),
                    Err(_) => final(self)@ == old(self)@ && forall|j: nat|
                        j < u64::MAX ==> names_view(taken@).contains(#[trigger] undo_name(j)),
                },
            },
    {
        let ghost entries = self@.files;
        let mut i: usize = 0;
        assert(entries.skip(0) =~= entries);
        while i < self.files.len()
            invariant
                i <= self.files@.len(),
                entries == self@.files,
                *self == *old(self),
                remembered(entries, for_filename@) == remembered(entries.skip(i as int), for_filename@),
            decreases self.files@.len() - i,
        {
            assert(entries.skip(i as int)[0] == entries[i as int]);
            assert(entries.skip(i as int).drop_first() =~= entries.skip(i + 1));
            if self.files[i].0 == *for_filename {
                return Ok((self.files[i].1.undo_file_name.clone(), false));
            }
            i += 1;
        }
        match CfgEntryFile::new(taken) {
            Err(e) => Err(e),
            Ok(entry) => {
                let name = entry.undo_file_name.clone();
                self.files.push((for_filename.clone(), entry));
                assert(self@.files =~= entries.push((for_filename@, name@)));
                Ok((name, true))
            },
        }
    }
}

} // verus!
