//! The assembled knowledge document of one indexing run.
//!
//! Assembly is all-or-nothing: the document exists exactly when every
//! discovered file was indexed, and otherwise the run reports the first
//! failure, naming the file (and section, for an embedding failure) at
//! which it stopped.

use crate::config::Config;
use crate::embedding::EmbeddingError;
use crate::source_file::SourceFile;
use vstd::prelude::*;

verus! {

/// Why an indexing run stopped.
#[derive(Debug)]
pub enum IndexError {
    /// The file could not be read as text.
    FileRead { path: String },
    /// Embedding the text of one of the file's sections failed.
    Embedding { path: String, section: usize, error: EmbeddingError },
}

impl IndexError {
    /// The path of the file at which the run stopped.
    pub open spec fn spec_error_path(&self) -> Seq<char> {
        match self {
            IndexError::FileRead { path } => path@,
            IndexError::Embedding { path, .. } => path@,
        }
    }

    /// The path of the file at which the run stopped.
    pub fn error_path(&self) -> (r: &String)
        ensures
            r@ == self.spec_error_path(),
    {
        match self {
            IndexError::FileRead { path } => path,
            IndexError::Embedding { path, .. } => path,
        }
    }
}

/// The complete knowledge document of one run: the configuration
/// snapshot it was built from, and one record per discovered file, in
/// discovery order.
pub struct KnowledgeSnippets {
    config: Config,
    files: Vec<SourceFile>,
}

impl KnowledgeSnippets {
    /// The configuration snapshot the document was built from.
    pub closed spec fn spec_config(&self) -> Config {
        self.config
    }

    /// The per-file records, in discovery order.
    pub closed spec fn spec_files(&self) -> Seq<SourceFile> {
        self.files@
    }

    /// Assemble the document from the per-file outcomes, in discovery
    /// order. All-or-nothing: the document exists exactly when every
    /// file was indexed; otherwise the result is the first failure and
    /// no document is produced.
    #[verifier::loop_isolation(false)]
    pub fn new(config: Config, outcomes: Vec<Result<SourceFile, IndexError>>) -> (r: Result<
        KnowledgeSnippets,
        IndexError,
    >)
        ensures
            r is Ok <==> (forall|k: int|
                0 <= k < outcomes@.len() ==> (#[trigger] outcomes@[k]) is Ok),
            r matches Ok(doc) ==> doc.spec_config() == config && doc.spec_files().len()
                == outcomes@.len() && (forall|k: int|
                0 <= k < outcomes@.len() ==> doc.spec_files()[k] == (
                #[trigger] outcomes@[k])->Ok_0),
            r matches Err(e) ==> exists|k: int|
                0 <= k < outcomes@.len() && (#[trigger] outcomes@[k]) is Err && e
                    == outcomes@[k]->Err_0 && (forall|j: int|
                    0 <= j < k ==> outcomes@[j] is Ok),
    {
        let ghost all = outcomes@;
        let mut outcomes = outcomes;
        let mut files: Vec<SourceFile> = Vec::new();
        while outcomes.len() > 0
            invariant
                all.len() == files@.len() + outcomes@.len(),
                outcomes@ == all.skip(files@.len() as int),
                forall|k: int|
                    0 <= k < files@.len() ==> (#[trigger] all[k]) is Ok && files@[k] == all[k]->Ok_0,
            decreases outcomes@.len(),
        {
            let ghost done = files@.len() as int;
            proof {
                assert(outcomes@[0] == all[done]);
                assert(all.skip(done).remove(0) =~= all.skip(done + 1));
            }
            let outcome = outcomes.remove(0);
            match outcome {
                Ok(file) => {
                    files.push(file);
                },
                Err(error) => {
                    proof {
                        assert(all[done] is Err);
                        assert(error == all[done]->Err_0);
                        assert(forall|j: int| 0 <= j < done ==> (#[trigger] all[j]) is Ok);
                    }
                    return Err(error);
                },
            }
        }
        Ok(KnowledgeSnippets { config, files })
    }

    /// The configuration snapshot the document was built from.
    pub fn config(&self) -> (r: &Config)
        ensures
            r == self.spec_config(),
    {
        &self.config
    }

    /// The per-file records, in discovery order.
    pub fn files(&self) -> (r: &Vec<SourceFile>)
        ensures
            r@ == self.spec_files(),
    {
        &self.files
    }
}

} // verus!
