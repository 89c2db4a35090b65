//! The protected-file policy: one classification point that every command
//! applies to a resolved, root-relative path before touching the world tree.

use vstd::prelude::*;
use crate::fstree::Entry;
use crate::fstree::EntrySpec;
use crate::fstree::WorldTree;

verus! {

/// The class of a resolved path: a directory of the world, a protected
/// metadata file, or an ordinary entry.
#[derive(Clone, Copy, Debug, PartialEq, Eq, Structural)]
pub enum Classification {
    Directory,
    Protected,
    Ordinary,
}

/// The metadata descriptor's filename. A path whose final component equals
/// it — exact component equality, not a suffix match — is protected.
pub open spec fn protected_name() -> Seq<char> {
    "info.json"@
}

/// A directory of the world: the sandbox root itself, or a present
/// directory entry.
pub open spec fn is_dir_spec(m: Map<Seq<Seq<char>>, EntrySpec>, rel: Seq<Seq<char>>) -> bool {
    rel.len() == 0 || (m.contains_key(rel) && m[rel] == EntrySpec::Dir)
}

/// Classification of a root-relative path: directories first, then the
/// protected-name check on the final component, else ordinary.
pub open spec fn classify_spec(m: Map<Seq<Seq<char>>, EntrySpec>, rel: Seq<Seq<char>>) -> Classification {
    if is_dir_spec(m, rel) {
        Classification::Directory
    } else if rel.len() > 0 && rel.last() == protected_name() {
        Classification::Protected
    } else {
        Classification::Ordinary
    }
}

/// Classifies the root-relative path `rel` against the world tree.
pub fn classify(world: &WorldTree, rel: &Vec<String>) -> (c: Classification)
    requires
        world.wf(),
    ensures
        c == classify_spec(world@, rel.deep_view()),
{
    if rel.len() == 0 {
        return Classification::Directory;
    }
    let is_dir = match world.find_entry(rel) {
        Some(e) => match e {
            Entry::Dir => true,
            Entry::File(_) => false,
        },
        None => false,
    };
    if is_dir {
        return Classification::Directory;
    }
    let descriptor = String::from_str("info.json");
    if rel[rel.len() - 1] == descriptor {
        proof {
            assert(rel.deep_view().last() == protected_name());
        }
        return Classification::Protected;
    }
    proof {
        assert(rel.deep_view().last() != protected_name());
    }
    Classification::Ordinary
}

/// Protected invisibility: a non-directory path whose final component is the
/// metadata descriptor's name is classified protected, whatever directory it
/// lives in and at whatever depth.
pub proof fn lemma_protected_invisibility(m: Map<Seq<Seq<char>>, EntrySpec>, rel: Seq<Seq<char>>)
    requires
        rel.len() > 0,
        rel.last() == protected_name(),
        !is_dir_spec(m, rel),
    ensures
        classify_spec(m, rel) == Classification::Protected,
{
}

/// Directory distinction: a directory of the world is always classified as
/// a directory, never as protected or ordinary.
pub proof fn lemma_directory_distinction(m: Map<Seq<Seq<char>>, EntrySpec>, rel: Seq<Seq<char>>)
    requires
        is_dir_spec(m, rel),
    ensures
        classify_spec(m, rel) == Classification::Directory,
{
}

} // verus!
