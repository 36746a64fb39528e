//! Solution templates: locating the template file for a data-structure
//! variant and expanding its placeholder.
//!
//! A template is plain text in which every literal occurrence of the
//! placeholder `{{problem_id}}` stands for the problem id. Expansion
//! replaces each occurrence with the id's decimal rendering, scanning
//! left to right without rescanning substituted text.

use vstd::prelude::*;
use crate::decimal::{dec_seq, u64_to_decimal};

verus! {

/// The placeholder that a template may contain.
pub open spec fn placeholder() -> Seq<char> {
    "{{problem_id}}"@
}

/// The placeholder spans 14 characters.
pub proof fn lemma_placeholder_len()
    ensures
        placeholder().len() == 14,
{
    reveal_strlit("{{problem_id}}");
}

/// Whether the placeholder occurs in `content` starting at `i`.
pub open spec fn placeholder_at(content: Seq<char>, i: int) -> bool {
    &&& 0 <= i
    &&& i + 14 <= content.len()
    &&& content.subrange(i, i + 14) == placeholder()
}

/// The tail of the expansion, starting at position `i` of `content`:
/// each occurrence of the placeholder becomes `rep`, all other text is
/// kept, and substituted text is not rescanned.
pub open spec fn expanded_from(content: Seq<char>, rep: Seq<char>, i: int) -> Seq<char>
    decreases content.len() - i,
{
    if i < 0 || i >= content.len() {
        Seq::empty()
    } else if placeholder_at(content, i) {
        rep + expanded_from(content, rep, i + 14)
    } else {
        seq![content[i]] + expanded_from(content, rep, i + 1)
    }
}

/// The full expansion of a template for a problem id.
pub open spec fn expanded(content: Seq<char>, problem_id: u64) -> Seq<char> {
    expanded_from(content, dec_seq(problem_id as nat), 0)
}

/// The data-structure variants a template exists for.
#[derive(Debug)]
pub enum DataStructure {
    Default,
}

impl DataStructure {
    /// The fixed relative path of the variant's template file.
    pub open spec fn template_path_spec(self) -> Seq<char> {
        match self {
            DataStructure::Default => "templates/default.txt"@,
        }
    }

    /// Every tag is currently read as the default variant.
    pub fn from_tag(value: String) -> (r: DataStructure)
        ensures
            r == DataStructure::Default,
    {
        match value {
            _ => DataStructure::Default,
        }
    }
}

#[derive(Debug)]
pub struct Template;

impl Template {
    /// The path of the template file to read for `ds`.
    pub fn path(ds: &DataStructure) -> (r: String)
        ensures
            r@ == ds.template_path_spec(),
    {
        match ds {
            DataStructure::Default => String::from_str("templates/default.txt"),
        }
    }

    /// Expands `content` for `problem_id`: every occurrence of the
    /// placeholder becomes the id's decimal rendering; everything else
    /// is copied verbatim.
    pub fn replace_mustache(content: String, problem_id: u64) -> (r: String)
        ensures
            r@ == expanded(content@, problem_id),
    {
        let rep = u64_to_decimal(problem_id);
        let len = content.as_str().unicode_len();
        let mut out = String::new();
        let mut i: usize = 0;
        proof {
            assert(Seq::<char>::empty() + expanded_from(content@, rep@, 0) =~= expanded_from(
                content@,
                rep@,
                0,
            ));
        }
        while i < len
            invariant
                i <= len,
                len == content@.len(),
                rep@ == dec_seq(problem_id as nat),
                expanded(content@, problem_id) == out@ + expanded_from(content@, rep@, i as int),
            decreases len - i,
        {
            if placeholder_here(&content, i, len) {
                out.append(rep.as_str());
                proof {
                    assert(out@ + (rep@ + expanded_from(content@, rep@, i + 14)) =~= (out@ + rep@)
                        + expanded_from(content@, rep@, i + 14));
                }
                i = i + 14;
            } else {
                let piece = content.as_str().substring_char(i, i + 1);
                out.append(piece);
                proof {
                    assert(content@.subrange(i as int, i + 1) =~= seq![content@[i as int]]);
                    assert(out@ + (seq![content@[i as int]] + expanded_from(content@, rep@, i + 1))
                        =~= (out@ + content@.subrange(i as int, i + 1)) + expanded_from(
                        content@,
                        rep@,
                        i + 1,
                    ));
                }
                i = i + 1;
            }
        }
        proof {
            assert(out@ + expanded_from(content@, rep@, len as int) =~= out@);
        }
        out
    }
}

/// Whether the placeholder occurs in `content` at character position `i`.
fn placeholder_here(content: &String, i: usize, len: usize) -> (r: bool)
    requires
        i <= len,
        len == content@.len(),
    ensures
        r == placeholder_at(content@, i as int),
{
    proof {
        reveal_strlit("{{problem_id}}");
        lemma_placeholder_len();
    }
    if len - i < 14 {
        assert(!placeholder_at(content@, i as int));
        return false;
    }
    let pat = "{{problem_id}}";
    let mut j: usize = 0;
    while j < 14
        invariant
            j <= 14,
            i + 14 <= len,
            len == content@.len(),
            pat@ == placeholder(),
            placeholder().len() == 14,
            forall|k: int| 0 <= k < j ==> content@[i + k] == placeholder()[k],
        decreases 14 - j,
    {
        if content.as_str().get_char(i + j) != pat.get_char(j) {
            proof {
                assert(content@.subrange(i as int, i + 14)[j as int] == content@[i + j]);
                assert(content@.subrange(i as int, i + 14) != placeholder());
            }
            return false;
        }
        j = j + 1;
    }
    proof {
        assert(content@.subrange(i as int, i + 14) =~= placeholder());
    }
    true
}

} // verus!
