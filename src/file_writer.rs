use std::sync::Mutex;
use vstd::prelude::*;

verus! {

#[verifier::external_type_specification]
#[verifier::external_body]
#[verifier::reject_recursive_types(T)]
pub struct ExMutex<T: ?Sized>(Mutex<T>);

/// Relies on std's `Mutex::new`, which makes an unlocked mutex around a value.
pub assume_specification<T>[ Mutex::<T>::new ](t: T) -> Mutex<T>;

/// A writer that appends each line, newline-terminated, to a file named at
/// construction. Writes through one instance are serialised by its lock.
pub struct FileLogWriter {
    file_path: String,
    file_mutex: Mutex<()>,
}

impl FileLogWriter {
    /// A writer for the file at `file_path`; the path cannot change afterwards.
    pub fn new(file_path: &str) -> (r: Self)
        ensures
            r.path() == file_path@,
    {
        FileLogWriter { file_path: String::from_str(file_path), file_mutex: Mutex::new(()) }
    }

    /// The path of the target file.
    pub closed spec fn path(&self) -> Seq<char> {
        self.file_path@
    }

    /// The path of the target file.
    pub fn file_path(&self) -> (r: &str)
        ensures
            r@ == self.path(),
    {
        self.file_path.as_str()
    }

    /// The lock that serialises the writes through this instance.
    pub fn lock(&self) -> &Mutex<()> {
        &self.file_mutex
    }

    /// The text that one write appends to the file: the line and a newline.
    pub fn record(&self, message: &str) -> (r: String)
        ensures
            r@ == message@.push('\n'),
    {
        let mut s = String::from_str(message);
        s.append("\n");
        proof {
            reveal_strlit("\n");
            assert("\n"@ =~= seq!['\n']);
        }
        assert(s@ =~= message@.push('\n'));
        s
    }
}

} // verus!
