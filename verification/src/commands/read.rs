//! The file-reader command: the reference implementation of the uniform
//! command contract `(arguments, current directory, root directory) ->
//! display text`. Every failure is rendered as a single line of text carrying
//! the command's name; nothing unwinds past the command boundary.

use vstd::prelude::*;
use crate::filter::Classification;
use crate::filter::classify;
use crate::filter::classify_spec;
use crate::filter::is_dir_spec;
use crate::filter::protected_name;
use crate::fstree::Entry;
use crate::fstree::EntrySpec;
use crate::fstree::WorldTree;
use crate::path_guard::AbsPath;
use crate::path_guard::contained;
use crate::path_guard::rel_display;
use crate::path_guard::render_rel;
use crate::path_guard::resolve;
use crate::path_guard::resolve_spec;
use crate::path_guard::sub_parts;
use crate::path_guard::verify_contained;

verus! {

/// The command errors, each carrying the root-relative path it is about
/// where the message names one. The last two arise only from a real
/// filesystem read at the boundary, never from the world-tree model.
pub enum CmdError {
    MissingOperand,
    AccessDenied,
    IsADirectory(Vec<String>),
    ProtectedFile(Vec<String>),
    NotFound(Vec<String>),
    PermissionDenied(Vec<String>),
    ReadFailure(Vec<String>),
}

/// The single line each command error renders as.
pub open spec fn error_text(e: CmdError) -> Seq<char> {
    match e {
        CmdError::MissingOperand => "read: missing file operand"@,
        CmdError::AccessDenied => "read: Access denied outside root directory"@,
        CmdError::IsADirectory(rel) => "read: "@ + rel_display(rel.deep_view())
            + ": Is a directory"@,
        CmdError::ProtectedFile(rel) => "read: "@ + rel_display(rel.deep_view())
            + ": Access denied to read info.json"@,
        CmdError::NotFound(rel) => "read: "@ + rel_display(rel.deep_view()) + ": No such file"@,
        CmdError::PermissionDenied(rel) => "read: "@ + rel_display(rel.deep_view())
            + ": Permission denied"@,
        CmdError::ReadFailure(rel) => "read: "@ + rel_display(rel.deep_view())
            + ": Could not read file"@,
    }
}

/// The display text the reader command owes for given arguments, cursor,
/// root and world: the file's raw text on success, else one error line.
pub open spec fn read_spec(
    args: Seq<Seq<char>>,
    cwd: Seq<Seq<char>>,
    root: Seq<Seq<char>>,
    m: Map<Seq<Seq<char>>, EntrySpec>,
) -> Seq<char> {
    if args.len() == 0 {
        "read: missing file operand"@
    } else {
        let p = resolve_spec(args[0], cwd);
        if !contained(p, root) {
            "read: Access denied outside root directory"@
        } else {
            let rel = p.skip(root.len() as int);
            match classify_spec(m, rel) {
                Classification::Directory => "read: "@ + rel_display(rel) + ": Is a directory"@,
                Classification::Protected => "read: "@ + rel_display(rel)
                    + ": Access denied to read info.json"@,
                Classification::Ordinary => if m.contains_key(rel) {
                    match m[rel] {
                        EntrySpec::File(content) => content,
                        // a present directory never classifies as ordinary
                        EntrySpec::Dir => Seq::empty(),
                    }
                } else {
                    "read: "@ + rel_display(rel) + ": No such file"@
                },
            }
        }
    }
}

/// When the reader command returns raw file content rather than a message.
pub open spec fn read_succeeds(
    args: Seq<Seq<char>>,
    cwd: Seq<Seq<char>>,
    root: Seq<Seq<char>>,
    m: Map<Seq<Seq<char>>, EntrySpec>,
) -> bool {
    &&& args.len() > 0
    &&& contained(resolve_spec(args[0], cwd), root)
    &&& classify_spec(m, resolve_spec(args[0], cwd).skip(root.len() as int))
        == Classification::Ordinary
    &&& m.contains_key(resolve_spec(args[0], cwd).skip(root.len() as int))
}

/// The reader command as a tagged result: the file's text, or the error it
/// is rendered from. Success comes if and only if the first argument
/// resolves to a contained, ordinary, present path.
pub fn read_value(
    args: &Vec<String>,
    current_dir: &AbsPath,
    root_dir: &AbsPath,
    world: &WorldTree,
) -> (r: Result<String, CmdError>)
    requires
        current_dir.wf(),
        world.wf(),
    ensures
        (r is Ok) == read_succeeds(args.deep_view(), current_dir@, root_dir@, world@),
        match r {
            Ok(content) => content@ == read_spec(
                args.deep_view(),
                current_dir@,
                root_dir@,
                world@,
            ),
            Err(e) => error_text(e) == read_spec(args.deep_view(), current_dir@, root_dir@, world@)
                && !(e matches CmdError::PermissionDenied(_)) && !(e
                matches CmdError::ReadFailure(_)),
        },
{
    let ghost argsv = args.deep_view();
    if args.len() == 0 {
        return Err(CmdError::MissingOperand);
    }
    proof {
        assert(argsv[0] == args@[0]@);
    }
    let resolved = resolve(args[0].as_str(), current_dir);
    if !verify_contained(&resolved, root_dir) {
        return Err(CmdError::AccessDenied);
    }
    let rel = sub_parts(&resolved.parts, root_dir.parts.len(), resolved.parts.len());
    proof {
        assert(rel.deep_view() =~= resolved@.skip(root_dir@.len() as int));
    }
    match classify(world, &rel) {
        Classification::Directory => Err(CmdError::IsADirectory(rel)),
        Classification::Protected => Err(CmdError::ProtectedFile(rel)),
        Classification::Ordinary => {
            match world.find_entry(&rel) {
                Some(e) => match e {
                    Entry::File(content) => Ok(content.clone()),
                    Entry::Dir => {
                        proof {
                            assert(false);
                        }
                        Err(CmdError::NotFound(rel))
                    },
                },
                None => Err(CmdError::NotFound(rel)),
            }
        },
    }
}

/// Builds `"read: " + <relative path> + suffix`.
fn message_about(rel: &Vec<String>, suffix: &str) -> (s: String)
    ensures
        s@ == "read: "@ + rel_display(rel.deep_view()) + suffix@,
{
    let mut s = String::from_str("read: ");
    let shown = render_rel(rel);
    s.append(shown.as_str());
    s.append(suffix);
    proof {
        assert(s@ =~= "read: "@ + rel_display(rel.deep_view()) + suffix@);
    }
    s
}

/// Renders a command error as its single display line.
pub fn render_error(e: &CmdError) -> (s: String)
    ensures
        s@ == error_text(*e),
{
    match e {
        CmdError::MissingOperand => String::from_str("read: missing file operand"),
        CmdError::AccessDenied => String::from_str("read: Access denied outside root directory"),
        CmdError::IsADirectory(rel) => message_about(rel, ": Is a directory"),
        CmdError::ProtectedFile(rel) => message_about(rel, ": Access denied to read info.json"),
        CmdError::NotFound(rel) => message_about(rel, ": No such file"),
        CmdError::PermissionDenied(rel) => message_about(rel, ": Permission denied"),
        CmdError::ReadFailure(rel) => message_about(rel, ": Could not read file"),
    }
}

/// Reads a file of the world and returns its raw text; every failure is
/// returned as the command's single-line message instead, never surfaced as
/// an error to the caller.
pub fn read(
    args: &Vec<String>,
    current_dir: &AbsPath,
    root_dir: &AbsPath,
    world: &WorldTree,
) -> (out: String)
    requires
        current_dir.wf(),
        world.wf(),
    ensures
        out@ == read_spec(args.deep_view(), current_dir@, root_dir@, world@),
{
    match read_value(args, current_dir, root_dir, world) {
        Ok(content) => content,
        Err(e) => render_error(&e),
    }
}

/// Containment at the command boundary: whatever fragment is supplied —
/// `..` chains, absolute-looking strings, anything — if it does not resolve
/// to a path under the root, the reader answers with the fixed denial line
/// and reveals nothing else.
pub proof fn lemma_read_rejects_escape(
    args: Seq<Seq<char>>,
    cwd: Seq<Seq<char>>,
    root: Seq<Seq<char>>,
    m: Map<Seq<Seq<char>>, EntrySpec>,
)
    requires
        args.len() > 0,
        !contained(resolve_spec(args[0], cwd), root),
    ensures
        read_spec(args, cwd, root, m) == "read: Access denied outside root directory"@,
{
}

/// Directory distinction at the command boundary: reading a directory of
/// the world yields the is-a-directory line — never raw content and never a
/// read error.
pub proof fn lemma_read_directory_distinction(
    args: Seq<Seq<char>>,
    cwd: Seq<Seq<char>>,
    root: Seq<Seq<char>>,
    m: Map<Seq<Seq<char>>, EntrySpec>,
)
    requires
        args.len() > 0,
        contained(resolve_spec(args[0], cwd), root),
        is_dir_spec(m, resolve_spec(args[0], cwd).skip(root.len() as int)),
    ensures
        ({
            let rel = resolve_spec(args[0], cwd).skip(root.len() as int);
            read_spec(args, cwd, root, m) == "read: "@ + rel_display(rel) + ": Is a directory"@
        }),
{
}

/// Protected invisibility at the command boundary: reading a non-directory
/// path whose final component is the metadata descriptor's name yields the
/// fixed denial line, at any depth — never the file's content.
pub proof fn lemma_read_protected_invisibility(
    args: Seq<Seq<char>>,
    cwd: Seq<Seq<char>>,
    root: Seq<Seq<char>>,
    m: Map<Seq<Seq<char>>, EntrySpec>,
)
    requires
        args.len() > 0,
        contained(resolve_spec(args[0], cwd), root),
        ({
            let rel = resolve_spec(args[0], cwd).skip(root.len() as int);
            rel.len() > 0 && rel.last() == protected_name() && !is_dir_spec(m, rel)
        }),
    ensures
        ({
            let rel = resolve_spec(args[0], cwd).skip(root.len() as int);
            read_spec(args, cwd, root, m) == "read: "@ + rel_display(rel)
                + ": Access denied to read info.json"@
        }),
{
}

} // verus!
