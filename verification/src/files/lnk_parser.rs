use parselnk::Lnk;
use std::convert::TryFrom;
use vstd::prelude::*;
use crate::files::file_base::FileBase;
use crate::files::lnk_layout::{link_layout_ok, lnk_layout_ok};

verus! {

#[verifier::external_type_specification]
#[verifier::external_body]
pub struct ExLnk(parselnk::Lnk);

#[verifier::external_type_specification]
#[verifier::external_body]
pub struct ExLnkError(parselnk::error::Error);

/// `<parselnk::Lnk as Clone>::clone`, derived by parselnk; nothing is claimed
/// of the copy, which is opaque here.
pub assume_specification[ <parselnk::Lnk as Clone>::clone ](lnk: &parselnk::Lnk) -> parselnk::Lnk;

/// Whether parselnk reads `contents` as a Windows shell link.
pub uninterp spec fn lnk_parses(contents: Seq<u8>) -> bool;

/// Calls `<parselnk::Lnk as TryFrom<&[u8]>>::try_from`, which reads the bytes
/// of a `.lnk` file. Claimed: whether it succeeds depends on the bytes alone.
/// The bytes on which parselnk panics (see `lnk_layout_ok`) are left out.
/// Left unsaid: parselnk may ask for an allocation of up to 4 GiB of zeros
/// (for a size field that the bytes do not back) before the read fails.
#[verifier::external_body]
fn parse_lnk(contents: &[u8]) -> (r: Result<Lnk, parselnk::error::Error>)
    requires
        lnk_layout_ok(contents@),
    ensures
        r is Ok == lnk_parses(contents@),
{
    Lnk::try_from(contents)
}

/// Whether `path` names a link by its extension: its file name (the text
/// after the last `/` or `\`) ends in `.lnk` with at least one character
/// before that dot, so that the extension is exactly `lnk`.
pub open spec fn lnk_path_spec(path: Seq<char>) -> bool {
    &&& path.len() >= 5
    &&& path.subrange(path.len() - 4, path.len() as int) == seq!['.', 'l', 'n', 'k']
    &&& path[path.len() - 5] != '/'
    &&& path[path.len() - 5] != '\\'
}

/// Whether a path names a link depends only on the extension of its file
/// name: whatever the folder part `folder` and the name `name` hold (spaces
/// included), `folder + name + ".lnk"` names a link when `name` is not empty
/// and holds no separator; and every path that names a link ends in `.lnk`
/// with a name of at least one character before it.
pub proof fn law_links_are_named_by_their_extension(folder: Seq<char>, name: Seq<char>, path: Seq<char>)
    requires
        name.len() > 0,
        !name.contains('/'),
        !name.contains('\\'),
    ensures
        lnk_path_spec(folder + name + seq!['.', 'l', 'n', 'k']),
        lnk_path_spec(path) ==> path.len() >= 4 && path.subrange(path.len() - 4, path.len() as int) == seq!['.', 'l', 'n', 'k'],
        lnk_path_spec(path) ==> path.len() >= 5 && path[path.len() - 5] != '/' && path[path.len() - 5] != '\\',
{
    let p = folder + name + seq!['.', 'l', 'n', 'k'];
    assert(p.subrange(p.len() - 4, p.len() as int) =~= seq!['.', 'l', 'n', 'k']);
    assert(p[p.len() - 5] == name[name.len() - 1]);
    assert(name.contains(name[name.len() - 1]));
}

/// Whether `path` names a link by its extension.
pub fn is_lnk_path(path: &str) -> (r: bool)
    ensures
        r == lnk_path_spec(path@),
{
    let n = path.unicode_len();
    if n < 5 {
        return false;
    }
    let before = path.get_char(n - 5);
    let dot = path.get_char(n - 4);
    let l = path.get_char(n - 3);
    let k1 = path.get_char(n - 2);
    let k2 = path.get_char(n - 1);
    let r = dot == '.' && l == 'l' && k1 == 'n' && k2 == 'k' && before != '/' && before != '\\';
    proof {
        if dot == '.' && l == 'l' && k1 == 'n' && k2 == 'k' {
            assert(path@.subrange(n - 4, n as int) =~= seq!['.', 'l', 'n', 'k']);
        } else {
            let t = path@.subrange(n - 4, n as int);
            assert(t[0] == dot && t[1] == l && t[2] == k1 && t[3] == k2);
        }
    }
    r
}

/// The relative path that parselnk reads from the bytes of a link, as text;
/// `None` when the link stores none.
pub uninterp spec fn lnk_relative_path(contents: Seq<u8>) -> Option<Seq<char>>;

/// The working directory that parselnk reads from the bytes of a link, as
/// text; `None` when the link stores none.
pub uninterp spec fn lnk_working_dir(contents: Seq<u8>) -> Option<Seq<char>>;

/// An optional string taken by its view.
pub open spec fn opt_string_view(s: Option<String>) -> Option<Seq<char>> {
    match s {
        Some(t) => Some(t@),
        None => None,
    }
}

/// Calls `parselnk::Lnk::relative_path` on the link of `file` and turns the
/// path into a string. Claimed: the result depends on the bytes the link was
/// read from alone (a `LnkFile` is only made by `LnkFile::new`, which parses
/// exactly those bytes); parselnk builds the path from a string, so turning
/// it back into one does not fail.
#[verifier::external_body]
fn link_relative_path(file: &LnkFile) -> (r: Option<String>)
    ensures
        opt_string_view(r) == lnk_relative_path(file.contents()),
{
    file.lnk.relative_path().and_then(|p| p.into_os_string().into_string().ok())
}

/// Calls `parselnk::Lnk::working_dir` on the link of `file` and turns the
/// path into a string. Claimed as for `link_relative_path`.
#[verifier::external_body]
fn link_working_dir(file: &LnkFile) -> (r: Option<String>)
    ensures
        opt_string_view(r) == lnk_working_dir(file.contents()),
{
    file.lnk.working_dir().and_then(|p| p.into_os_string().into_string().ok())
}

/// The path a link leads to: the resolved target where it could be
/// resolved, else the link's relative path as stored, else nothing.
pub open spec fn link_target_spec(resolved: Option<Seq<char>>, relative: Option<Seq<char>>) -> Seq<char> {
    match resolved {
        Some(t) => t,
        None => match relative {
            Some(r) => r,
            None => Seq::empty(),
        },
    }
}

/// Picks the path a link leads to, from the canonical form of its working
/// directory joined with its relative path (when both exist and the target
/// could be resolved) and from its relative path.
pub fn resolve_link_target(resolved: Option<String>, relative: Option<String>) -> (r: String)
    ensures
        r@ == link_target_spec(opt_string_view(resolved), opt_string_view(relative)),
{
    match resolved {
        Some(t) => t,
        None => match relative {
            Some(r) => r,
            None => String::new(),
        },
    }
}

/// The argument with which PowerShell starts a link: the file name
/// `file_name` in the folder that the environment variable `tmp` names.
pub fn start_argument(file_name: &str) -> (r: String)
    ensures
        r@ == "$Env:tmp\\"@ + file_name@,
{
    let mut r = String::from_str("$Env:tmp\\");
    r.append(file_name);
    r
}

/// A Windows shell link (`.lnk`) file; the search matches its full path.
#[derive(Clone)]
pub struct LnkFile {
    lnk: Lnk,
    path: String,
    contents: Ghost<Seq<u8>>,
}

impl LnkFile {
    /// Reads the link at `path` from its bytes `contents`. Fails when the
    /// path's extension is not exactly `lnk` (then `contents` is not looked
    /// at), when parselnk would panic on the bytes, and when they are not a
    /// shell link.
    pub fn new(path: String, contents: &[u8]) -> (r: Result<LnkFile, ()>)
        ensures
            r is Ok == (lnk_path_spec(path@) && lnk_layout_ok(contents@) && lnk_parses(contents@)),
            r matches Ok(f) ==> f.path_view() == path@ && f.contents() == contents@,
    {
        if !is_lnk_path(path.as_str()) {
            return Err(());
        }
        if !link_layout_ok(contents) {
            return Err(());
        }
        match parse_lnk(contents) {
            Ok(lnk) => Ok(LnkFile { lnk, path, contents: Ghost(contents@) }),
            Err(_) => Err(()),
        }
    }

    /// The bytes the link was read from.
    pub closed spec fn contents(&self) -> Seq<u8> {
        self.contents@
    }

    /// The relative path and the working directory that the link stores.
    pub fn link_parts(&self) -> (r: (Option<String>, Option<String>))
        ensures
            opt_string_view(r.0) == lnk_relative_path(self.contents()),
            opt_string_view(r.1) == lnk_working_dir(self.contents()),
    {
        (link_relative_path(self), link_working_dir(self))
    }
}

impl FileBase for LnkFile {
    closed spec fn path_view(&self) -> Seq<char> {
        self.path@
    }

    closed spec fn search_path_view(&self) -> Seq<char> {
        self.path@
    }

    fn get_path(&self) -> (r: &String) {
        &self.path
    }

    fn get_search_path(&self) -> (r: &str) {
        self.path.as_str()
    }
}

impl LnkFile {
    /// A link is searched by its full path.
    pub proof fn lemma_search_path_is_path(&self)
        ensures
            self.search_path_view() == self.path_view(),
    {
    }
}

} // verus!
