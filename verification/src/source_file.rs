//! One scanned file and its sections.
//!
//! A [`SourceFile`] keeps the file's text exactly as it was read, so
//! that a line-range lookup returns text identical to the source, and
//! pairs every section range with the embedding vector obtained for the
//! section's text. Vector components are carried as raw bit patterns:
//! the numeric reading of an embedding lives outside the verified core.

use crate::lines::join_range;
use crate::lines::spec_join;
use crate::lines::spec_lines;
use crate::lines::split_lines;
use crate::section::section_ranges;
use crate::section::spec_num_sections;
use crate::section::spec_section_end;
use vstd::prelude::*;

verus! {

/// One contiguous line range of a source file (inclusive bounds) and
/// the embedding vector of its text, componentwise as bit patterns.
pub struct SourceSection {
    pub start_line: usize,
    pub end_line: usize,
    pub embedding_vector: Vec<u32>,
}

/// Sections lie within a file of `line_count` lines and are ordered by
/// strictly increasing start line.
pub open spec fn sections_wf(sections: Seq<SourceSection>, line_count: nat) -> bool {
    &&& forall|k: int|
        0 <= k < sections.len() ==> (#[trigger] sections[k]).start_line <= sections[k].end_line
            < line_count
    &&& forall|k1: int, k2: int|
        0 <= k1 < k2 < sections.len() ==> (#[trigger] sections[k1]).start_line < (
        #[trigger] sections[k2]).start_line
}

/// A scanned file: its path, its full text exactly as read, the derived
/// line count, and its sections.
pub struct SourceFile {
    path: String,
    content: String,
    line_count: usize,
    sections: Vec<SourceSection>,
}

impl SourceFile {
    /// The stored line count is the one derived from the text, and the
    /// sections fit the file.
    #[verifier::type_invariant]
    spec fn wf(&self) -> bool {
        &&& self.line_count == spec_lines(self.content@).len()
        &&& sections_wf(self.sections@, self.line_count as nat)
    }

    pub closed spec fn spec_path(&self) -> Seq<char> {
        self.path@
    }

    pub closed spec fn spec_content(&self) -> Seq<char> {
        self.content@
    }

    pub closed spec fn spec_sections(&self) -> Seq<SourceSection> {
        self.sections@
    }

    /// Build a file record from its path, its text and ready-made
    /// sections; the line count is derived from the text.
    pub fn new(path: String, content: String, sections: Vec<SourceSection>) -> (r: SourceFile)
        requires
            sections_wf(sections@, spec_lines(content@).len()),
        ensures
            r.spec_path() == path@,
            r.spec_content() == content@,
            r.spec_sections() == sections@,
    {
        let lines = split_lines(content.as_str());
        let line_count = lines.len();
        proof {
            assert(lines.deep_view().len() == lines@.len());
        }
        SourceFile { path, content, line_count, sections }
    }

    /// Assemble the record for one file: compute the section ranges of
    /// its text and pair them, in order, with the embedding vectors
    /// obtained for the section texts (one vector per section).
    pub fn from_content(
        path: String,
        content: String,
        window: usize,
        stride: usize,
        vectors: Vec<Vec<u32>>,
    ) -> (r: SourceFile)
        requires
            1 <= stride <= window,
            vectors@.len() == spec_num_sections(
                spec_lines(content@).len() as int,
                stride as int,
            ),
        ensures
            r.spec_path() == path@,
            r.spec_content() == content@,
            r.spec_sections().len() == vectors@.len(),
            forall|k: int|
                0 <= k < vectors@.len() ==> {
                    &&& (#[trigger] r.spec_sections()[k]).start_line == k * stride
                    &&& r.spec_sections()[k].end_line == spec_section_end(
                        k * stride,
                        window as int,
                        spec_lines(content@).len() as int,
                    )
                    &&& r.spec_sections()[k].embedding_vector@ == vectors@[k]@
                },
    {
        let lines = split_lines(content.as_str());
        let ranges = section_ranges(lines.len(), window, stride);
        let ghost all_vectors = vectors@;
        let mut vectors = vectors;
        let mut sections: Vec<SourceSection> = Vec::new();
        let mut i: usize = 0;
        while i < ranges.len()
            invariant
                i == sections@.len() <= ranges@.len() == all_vectors.len(),
                vectors@ == all_vectors.skip(i as int),
                forall|k: int| 0 <= k < ranges@.len() ==> (#[trigger] ranges@[k]).0 == k * stride,
                forall|k: int|
                    0 <= k < ranges@.len() ==> (#[trigger] ranges@[k]).1 == spec_section_end(
                        k * stride,
                        window as int,
                        spec_lines(content@).len() as int,
                    ),
                forall|k: int|
                    0 <= k < ranges@.len() ==> (#[trigger] ranges@[k]).0 <= ranges@[k].1
                        < spec_lines(content@).len(),
                forall|k: int|
                    0 <= k < i ==> {
                        &&& (#[trigger] sections@[k]).start_line == ranges@[k].0
                        &&& sections@[k].end_line == ranges@[k].1
                        &&& sections@[k].embedding_vector@ == all_vectors[k]@
                    },
            decreases ranges@.len() - i,
        {
            let (start_line, end_line) = ranges[i];
            let embedding_vector = vectors.remove(0);
            proof {
                assert(all_vectors.skip(i as int).remove(0) =~= all_vectors.skip(i as int + 1));
                assert(all_vectors.skip(i as int)[0] == all_vectors[i as int]);
            }
            sections.push(SourceSection { start_line, end_line, embedding_vector });
            i = i + 1;
        }
        proof {
            assert(sections_wf(sections@, spec_lines(content@).len())) by {
                assert forall|k1: int, k2: int| 0 <= k1 < k2 < sections@.len() implies (
                #[trigger] sections@[k1]).start_line < (#[trigger] sections@[k2]).start_line by {
                    assert(ranges@[k1].0 < ranges@[k2].0);
                }
            }
        }
        SourceFile::new(path, content, sections)
    }

    /// The number of lines of the file's text.
    pub fn line_count(&self) -> (r: usize)
        ensures
            r == spec_lines(self.spec_content()).len(),
    {
        proof {
            use_type_invariant(self);
        }
        self.line_count
    }

    /// The file's path.
    pub fn path(&self) -> (r: &String)
        ensures
            r@ == self.spec_path(),
    {
        &self.path
    }

    /// The file's full text, exactly as it was read.
    pub fn content(&self) -> (r: &String)
        ensures
            r@ == self.spec_content(),
    {
        &self.content
    }

    /// The file's sections, in ascending start order.
    pub fn sections(&self) -> (r: &Vec<SourceSection>)
        ensures
            r@ == self.spec_sections(),
    {
        &self.sections
    }

    /// The text of the inclusive line range `[start_line, end_line]`,
    /// both bounds clamped to the file's last line, joined by line
    /// feeds. An empty file, or a range that is empty after clamping,
    /// yields empty text.
    pub fn read_lines(&self, start_line: usize, end_line: usize) -> (r: String)
        ensures
            r@ == spec_read_lines(self.spec_content(), start_line as int, end_line as int),
    {
        let lines = split_lines(self.content.as_str());
        if lines.len() == 0 {
            return String::new();
        }
        let last = lines.len() - 1;
        let s = if start_line <= last {
            start_line
        } else {
            last
        };
        let e = if end_line <= last {
            end_line
        } else {
            last
        };
        if s <= e {
            join_range(&lines, s, e + 1)
        } else {
            String::new()
        }
    }
}

/// What a clamped line-range lookup on text returns: both bounds pulled
/// back to the last line, and the lines of the range joined by line
/// feeds; empty when the text has no lines or the clamped range is
/// empty.
pub open spec fn spec_read_lines(content: Seq<char>, start_line: int, end_line: int) -> Seq<
    char,
> {
    let all = spec_lines(content);
    if all.len() == 0 {
        Seq::empty()
    } else {
        let last = all.len() - 1;
        let s = if start_line <= last {
            start_line
        } else {
            last as int
        };
        let e = if end_line <= last {
            end_line
        } else {
            last as int
        };
        if s <= e {
            spec_join(all.subrange(s, e + 1))
        } else {
            Seq::empty()
        }
    }
}

} // verus!
